use tantivy::tokenizer::{LowerCaser, NgramTokenizer, TextAnalyzer};
use vstd::prelude::*;

verus! {

/// The lowercase form of a text, as `str::to_lowercase` gives it.
pub uninterp spec fn lower_of(s: Seq<char>) -> Seq<char>;

/// The texts of the tokens that the course analyzer emits for a text, in order.
pub uninterp spec fn ngrams_of(s: Seq<char>) -> Seq<Seq<char>>;

/// Whether every character of a text is ASCII.
pub open spec fn is_ascii_text(s: Seq<char>) -> bool {
    forall|j: int| 0 <= j < s.len() ==> (#[trigger] s[j]) as u32 <= 127
}

/// The ASCII lowercase of a character: `A` to `Z` become `a` to `z`, the rest stays.
pub open spec fn ascii_lower(c: char) -> char {
    match c {
        'A' => 'a',
        'B' => 'b',
        'C' => 'c',
        'D' => 'd',
        'E' => 'e',
        'F' => 'f',
        'G' => 'g',
        'H' => 'h',
        'I' => 'i',
        'J' => 'j',
        'K' => 'k',
        'L' => 'l',
        'M' => 'm',
        'N' => 'n',
        'O' => 'o',
        'P' => 'p',
        'Q' => 'q',
        'R' => 'r',
        'S' => 's',
        'T' => 't',
        'U' => 'u',
        'V' => 'v',
        'W' => 'w',
        'X' => 'x',
        'Y' => 'y',
        'Z' => 'z',
        _ => c,
    }
}

/// The ASCII lowercase of a text.
pub open spec fn fold_token(s: Seq<char>) -> Seq<char> {
    s.map_values(|c: char| ascii_lower(c))
}

/// Whether `t` is one of the n-grams of an ASCII text `s`: a run of 3 to 6 of
/// its characters, in ASCII lowercase.
pub open spec fn is_ngram_of(s: Seq<char>, t: Seq<char>) -> bool {
    exists|i: int, j: int|
        3 <= j - i <= 6 && 0 <= i && j <= s.len() && t == #[trigger] fold_token(s.subrange(i, j))
}

/// The characters of each string of a sequence.
pub open spec fn texts(v: Seq<String>) -> Seq<Seq<char>> {
    v.map_values(|t: String| t@)
}

/// Relies on str::to_lowercase: the result depends on the characters alone,
/// and an empty text stays empty.
#[verifier::external_body]
pub(crate) fn lowercase(s: &str) -> (r: String)
    ensures
        r@ == lower_of(s@),
        s@.len() == 0 ==> r@.len() == 0,
{
    s.to_lowercase()
}

/// Relies on tantivy's NgramTokenizer::new(3, 6, false), which emits every
/// run of 3 to 6 characters, followed by its LowerCaser, which lowercases an
/// ASCII token in ASCII and any other token through `char::to_lowercase`.
/// The result depends on the text alone; for an ASCII text its tokens are
/// exactly its n-grams.
#[verifier::external_body]
fn ngram_tokens(text: &str) -> (r: Vec<String>)
    ensures
        texts(r@) == ngrams_of(text@),
        is_ascii_text(text@) ==> forall|t: Seq<char>|
            #[trigger] texts(r@).contains(t) <==> is_ngram_of(text@, t),
{
    let ngrams = NgramTokenizer::new(3, 6, false).unwrap();
    let mut analyzer = TextAnalyzer::builder(ngrams).filter(LowerCaser).build();
    let mut stream = analyzer.token_stream(text);
    let mut out = Vec::new();
    while stream.advance() {
        out.push(stream.token().text.clone());
    }
    out
}

/// The tokens of a text: where the analyzer gives n-grams, those; where a
/// text has none, its lowercase form as the one token.
pub open spec fn tokens_of(s: Seq<char>) -> Seq<Seq<char>> {
    if ngrams_of(s).len() == 0 {
        seq![lower_of(s)]
    } else {
        ngrams_of(s)
    }
}

/// Splits a text into the tokens that the course index is built from: the
/// analyzer's n-grams; a text without any, the empty text included, gives
/// its lowercase form as the one token. For an ASCII text, the n-grams are its runs of 3 to 6
/// characters in ASCII lowercase, and only a text under 3 characters has none.
pub fn tokenize(text: &str) -> (r: Vec<String>)
    ensures
        texts(r@) == tokens_of(text@),
        is_ascii_text(text@) && text@.len() >= 3 ==> forall|t: Seq<char>|
            #[trigger] texts(r@).contains(t) <==> is_ngram_of(text@, t),
        is_ascii_text(text@) && text@.len() < 3 ==> texts(r@) == seq![lower_of(text@)],
{
    let grams = ngram_tokens(text);
    if grams.len() == 0 {
        proof {
            if is_ascii_text(text@) && text@.len() >= 3 {
                let t = fold_token(text@.subrange(0, 3));
                assert(is_ngram_of(text@, t));
                assert(texts(grams@).contains(t));
            }
        }
        let mut one: Vec<String> = Vec::new();
        one.push(lowercase(text));
        proof {
            assert(texts(one@) =~= seq![lower_of(text@)]);
        }
        one
    } else {
        proof {
            if is_ascii_text(text@) && text@.len() < 3 && grams@.len() > 0 {
                assert(texts(grams@).contains(texts(grams@)[0]));
            }
        }
        grams
    }
}

/// Tokens do not depend on ASCII case: two texts that agree but for the case
/// of their ASCII letters have the same n-grams, so by the contract of
/// `tokenize` two such ASCII texts give the same set of tokens.
pub proof fn lemma_ngrams_ignore_ascii_case(s: Seq<char>, t: Seq<char>, u: Seq<char>)
    requires
        s.len() == t.len(),
        forall|j: int| 0 <= j < s.len() ==> ascii_lower(#[trigger] s[j]) == ascii_lower(t[j]),
    ensures
        is_ngram_of(s, u) <==> is_ngram_of(t, u),
{
    assert forall|i: int, j: int| 0 <= i <= j <= s.len() implies fold_token(
        #[trigger] s.subrange(i, j),
    ) == fold_token(t.subrange(i, j)) by {
        let a = s.subrange(i, j);
        let b = t.subrange(i, j);
        assert forall|m: int| 0 <= m < a.len() implies ascii_lower(a[m]) == ascii_lower(b[m]) by {
            assert(a[m] == s[i + m] && b[m] == t[i + m]);
        }
        assert(a.map_values(|c: char| ascii_lower(c)) =~= b.map_values(|c: char| ascii_lower(c)));
    }
    if is_ngram_of(s, u) {
        let (i, j) = choose|i: int, j: int|
            3 <= j - i <= 6 && 0 <= i && j <= s.len() && u == #[trigger] fold_token(s.subrange(i, j));
        assert(u == fold_token(t.subrange(i, j)));
    }
    if is_ngram_of(t, u) {
        let (i, j) = choose|i: int, j: int|
            3 <= j - i <= 6 && 0 <= i && j <= t.len() && u == #[trigger] fold_token(t.subrange(i, j));
        assert(fold_token(s.subrange(i, j)) == fold_token(t.subrange(i, j)));
        assert(u == fold_token(s.subrange(i, j)));
    }
}

} // verus!
