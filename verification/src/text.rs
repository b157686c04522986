//! Text as sequences of characters: white space, trimming, joining tokens into
//! the text of a line, and the markup that wraps a line.

use vstd::prelude::*;
use vstd::string::*;

verus! {

/// The characters of each string of `v`, in the same order.
pub open spec fn texts_view(v: Seq<String>) -> Seq<Seq<char>> {
    Seq::new(v.len(), |i: int| v[i]@)
}

/// Whether `c` carries the Unicode property `White_Space`.
pub open spec fn is_white_space(c: char) -> bool {
    let n: u32 = c as u32;
    ||| 0x09 <= n <= 0x0D
    ||| n == 0x20
    ||| n == 0x85
    ||| n == 0xA0
    ||| n == 0x1680
    ||| 0x2000 <= n <= 0x200A
    ||| n == 0x2028
    ||| n == 0x2029
    ||| n == 0x202F
    ||| n == 0x205F
    ||| n == 0x3000
}

/// The first index at or after `i` whose character is not white space, or the
/// length of `s` where there is none.
pub open spec fn trim_start(s: Seq<char>, i: int) -> int
    decreases s.len() - i,
{
    if 0 <= i < s.len() && is_white_space(s[i]) {
        trim_start(s, i + 1)
    } else {
        i
    }
}

/// The least end `e` with `lo <= e <= j` such that every character in
/// `s[e..j]` is white space.
pub open spec fn trim_end(s: Seq<char>, lo: int, j: int) -> int
    decreases j - lo,
{
    if lo < j <= s.len() && is_white_space(s[j - 1]) {
        trim_end(s, lo, j - 1)
    } else {
        j
    }
}

/// `s` without its leading and trailing white space.
pub open spec fn spec_trim(s: Seq<char>) -> Seq<char> {
    let a = trim_start(s, 0);
    s.subrange(a, trim_end(s, a, s.len() as int))
}

/// The words joined by single spaces.
pub open spec fn spec_join(words: Seq<Seq<char>>) -> Seq<char>
    decreases words.len(),
{
    if words.len() == 0 {
        Seq::empty()
    } else if words.len() == 1 {
        words[0]
    } else {
        spec_join(words.drop_last()) + seq![' '] + words.last()
    }
}

/// The markup of a line: an inline-block wrapper around the trimmed text.
pub open spec fn spec_html(value: Seq<char>) -> Seq<char> {
    "<span style='display:inline-block;'>"@ + spec_trim(value) + "</span>"@
}

/// The text of a line before it is wrapped: its words joined by single
/// spaces, and, where the line ends in the ellipsis, the trimmed text with the
/// ellipsis glyph appended verbatim.
pub open spec fn spec_line_text(words: Seq<Seq<char>>, ellipsis: Option<Seq<char>>) -> Seq<char> {
    match ellipsis {
        None => spec_join(words),
        Some(glyph) => spec_trim(spec_join(words)) + glyph,
    }
}

/// `trim_start` stays within the sequence and skips white space only.
pub proof fn lemma_trim_start(s: Seq<char>, i: int)
    requires
        0 <= i <= s.len(),
    ensures
        i <= trim_start(s, i) <= s.len(),
        forall|k: int| i <= k < trim_start(s, i) ==> is_white_space(#[trigger] s[k]),
        trim_start(s, i) < s.len() ==> !is_white_space(s[trim_start(s, i)]),
    decreases s.len() - i,
{
    if i < s.len() && is_white_space(s[i]) {
        lemma_trim_start(s, i + 1);
    }
}

/// `trim_end` stays within its bounds and drops white space only.
pub proof fn lemma_trim_end(s: Seq<char>, lo: int, j: int)
    requires
        0 <= lo <= j <= s.len(),
    ensures
        lo <= trim_end(s, lo, j) <= j,
        forall|k: int| trim_end(s, lo, j) <= k < j ==> is_white_space(#[trigger] s[k]),
        lo < trim_end(s, lo, j) ==> !is_white_space(s[trim_end(s, lo, j) - 1]),
    decreases j - lo,
{
    if lo < j && is_white_space(s[j - 1]) {
        lemma_trim_end(s, lo, j - 1);
    }
}

/// Trimming keeps a stretch of the text: what it drops before and after that
/// stretch is white space, and the stretch neither begins nor ends with white
/// space.
pub proof fn law_trim(s: Seq<char>)
    ensures
        ({
            let a = trim_start(s, 0);
            let b = trim_end(s, a, s.len() as int);
            &&& 0 <= a <= b <= s.len()
            &&& spec_trim(s) == s.subrange(a, b)
            &&& forall|k: int| 0 <= k < a ==> is_white_space(#[trigger] s[k])
            &&& forall|k: int| b <= k < s.len() ==> is_white_space(#[trigger] s[k])
            &&& a < b ==> !is_white_space(spec_trim(s).first()) && !is_white_space(
                spec_trim(s).last(),
            )
        }),
{
    let a = trim_start(s, 0);
    lemma_trim_start(s, 0);
    lemma_trim_end(s, a, s.len() as int);
}

/// Whether `c` is white space.
pub fn white_space(c: char) -> (r: bool)
    ensures
        r == is_white_space(c),
{
    let n: u32 = c as u32;
    (0x09 <= n && n <= 0x0D) || n == 0x20 || n == 0x85 || n == 0xA0 || n == 0x1680 || (0x2000 <= n
        && n <= 0x200A) || n == 0x2028 || n == 0x2029 || n == 0x202F || n == 0x205F || n == 0x3000
}

/// The slice of `s` without leading and trailing white space.
pub fn trim(s: &str) -> (r: &str)
    ensures
        r@ == spec_trim(s@),
{
    let n: usize = s.unicode_len();
    let mut a: usize = 0;
    while a < n && white_space(s.get_char(a))
        invariant
            a <= n,
            n == s@.len(),
            trim_start(s@, 0) == trim_start(s@, a as int),
        decreases n - a,
    {
        a = a + 1;
    }
    let mut b: usize = n;
    while b > a && white_space(s.get_char(b - 1))
        invariant
            a <= b <= n,
            n == s@.len(),
            trim_end(s@, a as int, n as int) == trim_end(s@, a as int, b as int),
        decreases b - a,
    {
        b = b - 1;
    }
    s.substring_char(a, b)
}

/// The words `words[from..to]` joined by single spaces.
pub fn join_words(words: &Vec<String>, from: usize, to: usize) -> (r: String)
    requires
        from <= to <= words.len(),
    ensures
        r@ == spec_join(texts_view(words@).subrange(from as int, to as int)),
{
    let mut out = String::new();
    let mut i: usize = from;
    while i < to
        invariant
            from <= i <= to <= words.len(),
            out@ == spec_join(texts_view(words@).subrange(from as int, i as int)),
        decreases to - i,
    {
        proof {
            let all = texts_view(words@);
            let next = all.subrange(from as int, i as int + 1);
            assert(next.drop_last() =~= all.subrange(from as int, i as int));
            assert(next.last() == words@[i as int]@);
            if i == from {
                assert(out@ + words@[i as int]@ =~= words@[i as int]@);
            } else {
                reveal_strlit(" ");
                assert(" "@ =~= seq![' ']);
            }
        }
        if i > from {
            out.append(" ");
        }
        out.append(words[i].as_str());
        i = i + 1;
    }
    out
}

/// The first `count` strings of `src`.
pub fn copy_texts(src: &Vec<String>, count: usize) -> (r: Vec<String>)
    requires
        count <= src.len(),
    ensures
        texts_view(r@) == texts_view(src@).take(count as int),
{
    let mut out: Vec<String> = Vec::new();
    let mut i: usize = 0;
    while i < count
        invariant
            i <= count <= src.len(),
            out.len() == i,
            forall|k: int| 0 <= k < i ==> out@[k]@ == src@[k]@,
        decreases count - i,
    {
        out.push(src[i].clone());
        i = i + 1;
    }
    proof {
        assert(texts_view(out@) =~= texts_view(src@).take(count as int));
    }
    out
}

/// Whether `text` holds the first strings of `texts`.
pub fn starts_with_texts(texts: &Vec<String>, text: &Vec<String>) -> (r: bool)
    ensures
        r == (text.len() <= texts.len() && texts_view(text@) == texts_view(texts@).take(
            text.len() as int,
        )),
{
    if text.len() > texts.len() {
        return false;
    }
    let mut i: usize = 0;
    while i < text.len()
        invariant
            i <= text.len() <= texts.len(),
            forall|k: int| 0 <= k < i ==> text@[k]@ == texts@[k]@,
        decreases text.len() - i,
    {
        if text[i] != texts[i] {
            proof {
                assert(texts_view(text@)[i as int] != texts_view(texts@).take(text.len() as int)[i as int]);
            }
            return false;
        }
        i = i + 1;
    }
    proof {
        assert(texts_view(text@) =~= texts_view(texts@).take(text.len() as int));
    }
    true
}

/// The markup of a line whose text is `value`.
pub fn wrap_html(value: &str) -> (r: String)
    ensures
        r@ == spec_html(value@),
{
    let mut out = String::from_str("<span style='display:inline-block;'>");
    out.append(trim(value));
    out.append("</span>");
    out
}

} // verus!
