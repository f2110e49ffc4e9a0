//! Utilities: text analysis, hashing, id generation, batching, time ranges
//! and compression.
//!
//! Case folding and the word-character classes of keyword extraction read
//! the ASCII range, with characters above U+0080 counting as word
//! characters; language detection reads Unicode's alphabetic class through
//! `char::is_alphabetic`.

use vstd::prelude::*;
use crate::strutil;
use vstd::string::StrSliceExecFns;
use vstd::string::StringSliceAdditionalSpecFns;
use sha2::Digest;
use std::io::Read;
use std::io::Write;

verus! {

/// Text analysis helpers.
pub struct TextUtils;

/// Time-range helpers.
pub struct TimeUtils;

/// Hashing helpers.
pub struct HashUtils;

/// Cache bookkeeping helpers.
pub struct CacheUtils;

/// Identifier generation.
pub struct IdGenerator;

/// Batch processing helpers.
pub struct BatchUtils;

/// Compression helpers.
pub struct SerializationUtils;

/// How two pieces of content can be compared.
#[derive(Debug, Clone, PartialEq, Eq, Structural)]
pub enum SimilarityMethod {
    /// Angle between embedding vectors.
    Cosine,
    /// Straight-line distance between embeddings.
    Euclidean,
    /// Coordinate-wise distance between embeddings.
    Manhattan,
    /// Overlap of token sets.
    Jaccard,
    /// Model-based similarity.
    Semantic,
    /// A blend of the above.
    Hybrid,
}

/// A closed interval of epoch milliseconds.
#[derive(Debug, Clone, Copy, PartialEq, Eq, Structural)]
pub struct TimeRange {
    /// Start, inclusive.
    pub start: u64,
    /// End, inclusive.
    pub end: u64,
}

impl TimeUtils {
    /// A range from `start` to `end`; nothing when the bounds are reversed.
    pub fn create_range(start: u64, end: u64) -> (r: Option<TimeRange>)
        ensures
            r is Some <==> start <= end,
            r is Some ==> r.unwrap() == (TimeRange { start, end }),
    {
        if start <= end {
            Some(TimeRange { start, end })
        } else {
            None
        }
    }

    /// Whether `time` falls inside the range.
    pub fn is_in_range(time: u64, range: &TimeRange) -> (r: bool)
        ensures
            r == (range.start <= time <= range.end),
    {
        range.start <= time && time <= range.end
    }
}

/// A vowel for syllable estimation, in either case.
pub open spec fn spec_is_vowel(c: char) -> bool {
    c == 'a' || c == 'e' || c == 'i' || c == 'o' || c == 'u' || c == 'y' || c == 'A' || c == 'E'
        || c == 'I' || c == 'O' || c == 'U' || c == 'Y'
}

/// Syllables of one word, counted from position `i` on: the number of vowel
/// groups.
pub open spec fn spec_word_syllables_from(w: Seq<char>, i: int, prev_vowel: bool) -> int
    decreases w.len() - i,
{
    if i < 0 || i >= w.len() {
        0
    } else {
        (if spec_is_vowel(w[i]) && !prev_vowel {
            1int
        } else {
            0int
        }) + spec_word_syllables_from(w, i + 1, spec_is_vowel(w[i]))
    }
}

/// Syllables of one word, at least one.
pub open spec fn spec_word_syllables(w: Seq<char>) -> int {
    let n = spec_word_syllables_from(w, 0, false);
    if n < 1 {
        1
    } else {
        n
    }
}

/// Syllables of a sequence of words.
pub open spec fn spec_syllables(words: Seq<Seq<char>>) -> int
    decreases words.len(),
{
    if words.len() == 0 {
        0
    } else {
        spec_syllables(words.drop_last()) + spec_word_syllables(words.last())
    }
}

/// A code point in the unified CJK block.
pub open spec fn spec_is_cjk(c: char) -> bool {
    0x4E00 <= (c as u32) <= 0x9FFF
}

/// Whether a character has Unicode's Alphabetic property, the class that
/// `char::is_alphabetic` reads; the answer is a function of the character
/// alone.
pub uninterp spec fn spec_is_alphabetic(c: char) -> bool;

/// Relies on `char::is_alphabetic`: whether the character is alphabetic.
#[verifier::external_body]
fn char_is_alphabetic(c: char) -> (r: bool)
    ensures
        r == spec_is_alphabetic(c),
{
    c.is_alphabetic()
}

/// How many characters of `s` from position `i` on are CJK.
pub open spec fn spec_count_cjk(s: Seq<char>, i: int) -> int
    decreases s.len() - i,
{
    if i < 0 || i >= s.len() {
        0
    } else {
        (if spec_is_cjk(s[i]) {
            1int
        } else {
            0int
        }) + spec_count_cjk(s, i + 1)
    }
}

/// How many alphabetic characters `s` holds from position `i` on.
pub open spec fn spec_count_letters(s: Seq<char>, i: int) -> int
    decreases s.len() - i,
{
    if i < 0 || i >= s.len() {
        0
    } else {
        (if spec_is_alphabetic(s[i]) {
            1int
        } else {
            0int
        }) + spec_count_letters(s, i + 1)
    }
}

impl TextUtils {
    /// Estimates the syllables of a text: the vowel groups of each
    /// whitespace-separated word, one at least per word, saturated at the
    /// machine's integer range.
    pub fn estimate_syllables(text: &str) -> (r: usize)
        ensures
            r as int == (if spec_syllables(strutil::spec_tokens(text@)) <= usize::MAX {
                spec_syllables(strutil::spec_tokens(text@))
            } else {
                usize::MAX as int
            }),
    {
        let words = strutil::tokenize(text);
        let ghost wv = strutil::views_of(words@);
        let mut total: u128 = 0;
        let mut i: usize = 0;
        proof {
            assert(wv.take(0) =~= Seq::<Seq<char>>::empty());
        }
        while i < words.len()
            invariant
                i <= words@.len(),
                wv == strutil::views_of(words@),
                total == spec_syllables(wv.take(i as int)),
                total <= (i as u128) * (u64::MAX as u128),
                i <= u64::MAX,
            decreases words@.len() - i,
        {
            let w = &words[i];
            let n = w.as_str().unicode_len();
            let mut cnt: usize = 0;
            let mut j: usize = 0;
            let mut prev = false;
            while j < n
                invariant
                    n == w@.len(),
                    j <= n,
                    cnt <= j,
                    spec_word_syllables_from(w@, 0, false) == cnt + spec_word_syllables_from(
                        w@,
                        j as int,
                        prev,
                    ),
                decreases n - j,
            {
                let c = w.as_str().get_char(j);
                let vowel = c == 'a' || c == 'e' || c == 'i' || c == 'o' || c == 'u' || c == 'y'
                    || c == 'A' || c == 'E' || c == 'I' || c == 'O' || c == 'U' || c == 'Y';
                if vowel && !prev {
                    cnt += 1;
                }
                prev = vowel;
                j += 1;
            }
            let word_syllables: usize = if cnt < 1 {
                1
            } else {
                cnt
            };
            proof {
                lemma_word_syllables_nonneg(w@, j as int, prev);
                assert(word_syllables == spec_word_syllables(w@));
                assert(total + word_syllables <= ((i as u128) + 1) * (u64::MAX as u128))
                    by (nonlinear_arith)
                    requires
                        total <= (i as u128) * (u64::MAX as u128),
                        word_syllables <= u64::MAX,
                ;
                assert(((words@.len()) as u128) * (u64::MAX as u128) < u128::MAX)
                    by (nonlinear_arith)
                    requires words@.len() <= u64::MAX,
                ;
                let post = wv.take(i + 1);
                assert(post.drop_last() =~= wv.take(i as int));
                assert(post.last() == wv[i as int]);
                assert(wv[i as int] == words@[i as int]@);
            }
            total = total + (word_syllables as u128);
            i += 1;
        }
        proof {
            assert(wv.take(words@.len() as int) =~= wv);
        }
        if total > (usize::MAX as u128) {
            usize::MAX
        } else {
            total as usize
        }
    }

    /// Guesses the text's language: nothing without letters, Chinese when
    /// more than three tenths of the letters are CJK, English otherwise.
    pub fn detect_language(text: &str) -> (r: Option<String>)
        ensures
            r is None <==> spec_count_letters(text@, 0) == 0,
            r is Some ==> (r.unwrap()@ == "zh"@ <==> spec_count_cjk(text@, 0) * 10
                > spec_count_letters(text@, 0) * 3),
            r is Some ==> (r.unwrap()@ == "zh"@ || r.unwrap()@ == "en"@),
    {
        let n = text.unicode_len();
        let mut cjk: usize = 0;
        let mut letters: usize = 0;
        let mut i: usize = 0;
        while i < n
            invariant
                n == text@.len(),
                i <= n,
                cjk <= i,
                letters <= i,
                cjk + spec_count_cjk(text@, i as int) == spec_count_cjk(text@, 0),
                letters + spec_count_letters(text@, i as int) == spec_count_letters(text@, 0),
            decreases n - i,
        {
            let c = text.get_char(i);
            let code = c as u32;
            let is_cjk = 0x4E00 <= code && code <= 0x9FFF;
            if is_cjk {
                cjk += 1;
            }
            if char_is_alphabetic(c) {
                letters += 1;
            }
            i += 1;
        }
        if letters == 0 {
            return None;
        }
        proof {
            lemma_counts_nonneg(text@, 0);
            reveal_strlit("zh");
            reveal_strlit("en");
        }
        if (cjk as u128) * 10 > (letters as u128) * 3 {
            Some(String::from_str("zh"))
        } else {
            let r = String::from_str("en");
            proof {
                reveal_strlit("zh");
                reveal_strlit("en");
                assert(r@[0] != "zh"@[0]);
            }
            Some(r)
        }
    }

    /// Extracts up to `max_keywords` frequent content words: tokens are
    /// cleaned to their word characters (with ASCII case folded unless the
    /// text reads as Chinese), short words and stop words are dropped, and
    /// the most frequent remaining words win, by non-increasing frequency,
    /// earliest first on ties.
    pub fn extract_keywords(text: &str, max_keywords: usize) -> (r: Vec<String>)
        ensures
            r@.len() <= max_keywords,
            forall|m: int| 0 <= m < r@.len() ==> spec_is_keyword_of(text@, (#[trigger] r@[m])@),
            forall|m1: int, m2: int| 0 <= m1 < m2 < r@.len() ==> r@[m1]@ != r@[m2]@,
            forall|m1: int, m2: int|
                0 <= m1 < m2 < r@.len() ==> spec_kw_freq(text@, r@[m1]@) >= spec_kw_freq(
                    text@,
                    r@[m2]@,
                ),
            max_keywords > 0 && (exists|w: Seq<char>| spec_is_keyword_of(text@, w)) ==> r@.len()
                > 0,
    {
        let stop_words = stop_word_list();
        let toks = strutil::tokenize(text);

        // A text whose characters are mostly CJK is cleaned without case
        // folding; other text is lowercased first.
        let total_chars = text.unicode_len();
        let mut cjk_chars: usize = 0;
        let mut ci: usize = 0;
        while ci < total_chars
            invariant
                total_chars == text@.len(),
                ci <= total_chars,
                cjk_chars <= ci,
                cjk_chars + spec_count_cjk(text@, ci as int) == spec_count_cjk(text@, 0),
            decreases total_chars - ci,
        {
            let c = text.get_char(ci);
            let code = c as u32;
            if 0x4E00 <= code && code <= 0x9FFF {
                cjk_chars += 1;
            }
            ci += 1;
        }
        let chinese = cjk_chars > total_chars / 3;
        proof {
            assert(chinese == spec_kw_chinese(text@));
        }

        let mut words: Vec<String> = Vec::new();
        let mut counts: Vec<usize> = Vec::new();
        let mut i: usize = 0;
        while i < toks.len()
            invariant
                strutil::views_of(toks@) == strutil::spec_tokens(text@),
                strutil::views_of(stop_words@) == spec_stop_word_views(),
                chinese == spec_kw_chinese(text@),
                i <= toks@.len(),
                words@.len() == counts@.len(),
                forall|a: int, b: int| 0 <= a < b < words@.len() ==> words@[a]@ != words@[b]@,
                forall|k: int|
                    0 <= k < words@.len() ==> spec_is_keyword_of(text@, (#[trigger] words@[k])@),
                forall|k: int|
                    0 <= k < counts@.len() ==> #[trigger] counts@[k] == spec_kw_freq_upto(
                        text@,
                        words@[k]@,
                        i as int,
                    ),
                forall|j: int|
                    0 <= j < i && spec_kw_qualifies(
                        text@,
                        #[trigger] spec_kw_candidate(text@, j),
                    ) ==> exists|k: int|
                        0 <= k < words@.len() && (#[trigger] words@[k])@ == spec_kw_candidate(
                            text@,
                            j,
                        ),
            decreases toks@.len() - i,
        {
            let cleaned = if chinese {
                clean_word(toks[i].as_str(), false)
            } else {
                clean_word(toks[i].as_str(), true)
            };
            proof {
                assert(strutil::views_of(toks@)[i as int] == toks@[i as int]@);
                assert(cleaned@ == spec_kw_candidate(text@, i as int));
            }
            let min_len: usize = if chinese {
                2
            } else {
                3
            };
            let is_stop = strutil::has_str(&stop_words, cleaned.as_str());
            proof {
                assert(is_stop == spec_is_stop_word(cleaned@)) by {
                    let views = strutil::views_of(stop_words@);
                    if strutil::spec_has_str(stop_words@, cleaned@) {
                        let ix = choose|ix: int|
                            0 <= ix < stop_words@.len() && stop_words@[ix]@ == cleaned@;
                        assert(views[ix] == cleaned@);
                        assert(spec_stop_word_views().contains(cleaned@));
                    }
                    if spec_is_stop_word(cleaned@) {
                        let ix = choose|ix: int|
                            0 <= ix < spec_stop_word_views().len() && spec_stop_word_views()[ix]
                                == cleaned@;
                        assert(views[ix] == stop_words@[ix]@);
                        assert(strutil::spec_has_str(stop_words@, cleaned@));
                    }
                }
            }
            let qualified = cleaned.as_str().unicode_len() >= min_len && !is_stop;
            proof {
                assert(qualified == spec_kw_qualifies(text@, cleaned@));
            }
            if qualified {
                let mut k: usize = 0;
                let mut found = false;
                while k < words.len() && !found
                    invariant
                        words@.len() == counts@.len(),
                        k <= words@.len(),
                        found ==> k < words@.len() && words@[k as int]@ == cleaned@,
                        !found ==> forall|m: int| 0 <= m < k ==> words@[m]@ != cleaned@,
                    decreases words@.len() - k + (if found {
                        0int
                    } else {
                        1int
                    }),
                {
                    if strutil::str_eq(words[k].as_str(), cleaned.as_str()) {
                        found = true;
                    } else {
                        k += 1;
                    }
                }
                if found {
                    let c0 = counts[k];
                    proof {
                        lemma_kw_freq_upto_le(text@, words@[k as int]@, i as int);
                    }
                    counts[k] = c0 + 1;
                    proof {
                        assert(0 <= k < words@.len() && words@[k as int]@ == spec_kw_candidate(
                            text@,
                            i as int,
                        ));
                        assert forall|m: int| 0 <= m < counts@.len() implies #[trigger] counts@[m]
                            == spec_kw_freq_upto(text@, words@[m]@, i + 1) by {
                            if m != k {
                                assert(words@[m]@ != cleaned@);
                            }
                        }
                    }
                } else {
                    proof {
                        assert forall|m: int| 0 <= m < i implies spec_kw_candidate(text@, m)
                            != cleaned@ by {
                            if spec_kw_candidate(text@, m) == cleaned@ {
                                // The candidate qualifies, so it would already
                                // stand in `words`, against `found` being false.
                                assert(spec_kw_qualifies(text@, spec_kw_candidate(text@, m)));
                                let k0 = choose|k0: int|
                                    0 <= k0 < words@.len() && words@[k0]@ == spec_kw_candidate(
                                        text@,
                                        m,
                                    );
                                assert(words@[k0]@ != cleaned@);
                            }
                        }
                        lemma_kw_freq_upto_zero(text@, cleaned@, i as int);
                    }
                    let ghost prev_words = words@;
                    words.push(cleaned);
                    counts.push(1);
                    proof {
                        assert(strutil::spec_tokens(text@).len() == toks@.len());
                        let last = words@.len() - 1;
                        assert(0 <= last < words@.len() && words@[last]@ == spec_kw_candidate(
                            text@,
                            i as int,
                        ));
                        assert(spec_is_keyword_of(text@, words@[last]@));
                        assert forall|j: int|
                            0 <= j < i + 1 && spec_kw_qualifies(
                                text@,
                                #[trigger] spec_kw_candidate(text@, j),
                            ) implies exists|k0: int|
                            0 <= k0 < words@.len() && (#[trigger] words@[k0])@
                                == spec_kw_candidate(text@, j) by {
                            if j < i {
                                let k0 = choose|k0: int|
                                    0 <= k0 < prev_words.len() && prev_words[k0]@
                                        == spec_kw_candidate(text@, j);
                                assert(words@[k0]@ == spec_kw_candidate(text@, j));
                            }
                        }
                        assert forall|m: int| 0 <= m < counts@.len() implies #[trigger] counts@[m]
                            == spec_kw_freq_upto(text@, words@[m]@, i + 1) by {
                            if m < counts@.len() - 1 {
                                assert(words@[m]@ != words@[last]@);
                            }
                        }
                    }
                }
            } else {
                proof {
                    assert forall|m: int| 0 <= m < counts@.len() implies #[trigger] counts@[m]
                        == spec_kw_freq_upto(text@, words@[m]@, i + 1) by {
                        assert(spec_kw_qualifies(text@, words@[m]@));
                        assert(words@[m]@ != cleaned@);
                    }
                }
            }
            i += 1;
        }
        proof {
            assert(strutil::spec_tokens(text@).len() == toks@.len());
            assert forall|k: int| 0 <= k < counts@.len() implies #[trigger] counts@[k]
                == spec_kw_freq(text@, words@[k]@) by {}
        }

        // Pick the most frequent words, earliest first on equal counts.
        let mut out: Vec<String> = Vec::new();
        let mut picked: usize = 0;
        let mut done = false;
        while picked < max_keywords && !done
            invariant
                words@.len() == counts@.len(),
                forall|a: int, b: int| 0 <= a < b < words@.len() ==> words@[a]@ != words@[b]@,
                forall|k: int|
                    0 <= k < words@.len() ==> spec_is_keyword_of(text@, (#[trigger] words@[k])@),
                forall|j: int|
                    0 <= j < strutil::spec_tokens(text@).len() && spec_kw_qualifies(
                        text@,
                        #[trigger] spec_kw_candidate(text@, j),
                    ) ==> exists|k: int|
                        0 <= k < words@.len() && (#[trigger] words@[k])@ == spec_kw_candidate(
                            text@,
                            j,
                        ),
                out@.len() == picked,
                picked <= max_keywords,
                forall|k: int|
                    0 <= k < counts@.len() ==> #[trigger] counts@[k] == 0 || counts@[k]
                        == spec_kw_freq(text@, words@[k]@),
                out@.len() == 0 ==> forall|k: int|
                    0 <= k < counts@.len() ==> #[trigger] counts@[k] == spec_kw_freq(
                        text@,
                        words@[k]@,
                    ),
                forall|m: int|
                    0 <= m < out@.len() ==> exists|k: int|
                        0 <= k < words@.len() && (#[trigger] words@[k])@ == (#[trigger] out@[m])@
                            && counts@[k] == 0,
                forall|m: int|
                    0 <= m < out@.len() ==> spec_is_keyword_of(text@, (#[trigger] out@[m])@),
                forall|m1: int, m2: int| 0 <= m1 < m2 < out@.len() ==> out@[m1]@ != out@[m2]@,
                forall|m1: int, m2: int|
                    0 <= m1 < m2 < out@.len() ==> spec_kw_freq(text@, out@[m1]@) >= spec_kw_freq(
                        text@,
                        out@[m2]@,
                    ),
                out@.len() > 0 ==> forall|k: int|
                    0 <= k < counts@.len() ==> #[trigger] counts@[k] <= spec_kw_freq(
                        text@,
                        out@[out@.len() - 1]@,
                    ),
                done ==> out@.len() > 0 || !(exists|w: Seq<char>|
                spec_is_keyword_of(text@, w)),
            decreases max_keywords - picked + (if done {
                0int
            } else {
                1int
            }),
        {
            let mut best: usize = 0;
            let mut best_count: usize = 0;
            let mut k: usize = 0;
            while k < counts.len()
                invariant
                    words@.len() == counts@.len(),
                    k <= counts@.len(),
                    best_count > 0 ==> best < counts@.len() && counts@[best as int] == best_count,
                    forall|m: int| 0 <= m < k ==> counts@[m] <= best_count,
                decreases counts@.len() - k,
            {
                if counts[k] > best_count {
                    best = k;
                    best_count = counts[k];
                }
                k += 1;
            }
            if best_count == 0 {
                proof {
                    if out@.len() == 0 && (exists|w: Seq<char>| spec_is_keyword_of(text@, w)) {
                        let w = choose|w: Seq<char>| spec_is_keyword_of(text@, w);
                        let j = choose|j: int|
                            0 <= j < strutil::spec_tokens(text@).len() && spec_kw_candidate(
                                text@,
                                j,
                            ) == w;
                        assert(spec_kw_qualifies(text@, spec_kw_candidate(text@, j)));
                        let k0 = choose|k0: int|
                            0 <= k0 < words@.len() && words@[k0]@ == spec_kw_candidate(text@, j);
                        lemma_kw_freq_upto_pos(
                            text@,
                            w,
                            strutil::spec_tokens(text@).len() as int,
                            j,
                        );
                        assert(counts@[k0] == spec_kw_freq(text@, words@[k0]@));
                        assert(counts@[k0] <= best_count);
                        assert(false);
                    }
                }
                done = true;
            } else {
                let ghost prev_out = out@;
                let ghost prev_counts = counts@;
                let ghost wbest = words@[best as int]@;
                proof {
                    assert(counts@[best as int] == best_count);
                    assert(best_count == spec_kw_freq(text@, wbest));
                }
                out.push(words[best].clone());
                counts[best] = 0;
                picked += 1;
                proof {
                    assert(out@.last()@ == wbest);
                    assert(out@.drop_last() =~= prev_out);
                    assert(forall|m: int|
                        0 <= m < prev_counts.len() && m != best ==> counts@[m] == prev_counts[m]);
                    assert forall|m1: int, m2: int|
                        0 <= m1 < m2 < out@.len() implies out@[m1]@ != out@[m2]@ by {
                        if m2 == out@.len() - 1 {
                            if out@[m1]@ == wbest {
                                let k0 = choose|k0: int|
                                    0 <= k0 < words@.len() && words@[k0]@ == prev_out[m1]@
                                        && prev_counts[k0] == 0;
                                assert(words@[k0]@ == words@[best as int]@);
                                if k0 != best {
                                    assert(words@[k0]@ != words@[best as int]@);
                                }
                                assert(prev_counts[best as int] == best_count);
                            }
                        }
                    }
                    assert forall|m1: int, m2: int|
                        0 <= m1 < m2 < out@.len() implies spec_kw_freq(text@, out@[m1]@)
                        >= spec_kw_freq(text@, out@[m2]@) by {
                        if m2 == out@.len() - 1 && prev_out.len() > 0 {
                            assert(prev_counts[best as int] <= spec_kw_freq(
                                text@,
                                prev_out[prev_out.len() - 1]@,
                            ));
                            if m1 < prev_out.len() - 1 {
                                assert(spec_kw_freq(text@, prev_out[m1]@) >= spec_kw_freq(
                                    text@,
                                    prev_out[prev_out.len() - 1]@,
                                ));
                            }
                        }
                    }
                    assert forall|m: int| 0 <= m < out@.len() implies exists|k: int|
                        0 <= k < words@.len() && (#[trigger] words@[k])@ == (#[trigger] out@[m])@
                            && counts@[k] == 0 by {
                        if m == out@.len() - 1 {
                            assert(0 <= best < words@.len() && words@[best as int]@ == out@[m]@
                                && counts@[best as int] == 0);
                        } else {
                            let k0 = choose|k0: int|
                                0 <= k0 < words@.len() && words@[k0]@ == prev_out[m]@
                                    && prev_counts[k0] == 0;
                            assert(k0 != best);
                            assert(0 <= k0 < words@.len() && words@[k0]@ == out@[m]@ && counts@[k0]
                                == 0);
                        }
                    }
                }
            }
        }
        proof {
            if max_keywords > 0 && (exists|w: Seq<char>| spec_is_keyword_of(text@, w))
                && out@.len() == 0 {
                assert(done);
                assert(false);
            }
        }
        out
    }

    /// Shortens a text to its first `max_sentences` sentences; a text with no
    /// more sentences than that is returned whole. Sentences are split on
    /// `.`, `!` and `?`; the kept ones are trimmed and joined with `. ` and a
    /// closing period.
    pub fn summarize(text: &str, max_sentences: usize) -> (r: String)
        ensures
            spec_sentences(text@).len() <= max_sentences ==> r@ == text@,
            spec_sentences(text@).len() > max_sentences ==> r@ == strutil::spec_join(
                spec_sentences(text@).take(max_sentences as int).map_values(
                    |s: Seq<char>| strutil::spec_trim(s),
                ),
                ". "@,
            ) + "."@,
    {
        let pieces = split_sentences(text);
        if pieces.len() <= max_sentences {
            return String::from_str(text);
        }
        let mut kept: Vec<String> = Vec::new();
        let mut i: usize = 0;
        while i < max_sentences
            invariant
                max_sentences < pieces@.len(),
                i <= max_sentences,
                strutil::views_of(kept@) =~= spec_sentences(text@).take(i as int).map_values(
                    |s: Seq<char>| strutil::spec_trim(s),
                ),
                strutil::views_of(pieces@) == spec_sentences(text@),
            decreases max_sentences - i,
        {
            let t = strutil::str_trim(pieces[i].as_str());
            let ghost pre = kept@;
            kept.push(t);
            proof {
                assert(strutil::views_of(kept@) =~= strutil::views_of(pre).push(
                    strutil::spec_trim(pieces@[i as int]@),
                ));
                assert(strutil::views_of(kept@) =~= spec_sentences(text@).take(i + 1).map_values(
                    |s: Seq<char>| strutil::spec_trim(s),
                ));
            }
            i += 1;
        }
        let mut out = strutil::join_strings(&kept, ". ");
        out.append(".");
        out
    }
}

/// The remaining syllable count of a word is never negative.
proof fn lemma_word_syllables_nonneg(w: Seq<char>, i: int, prev: bool)
    ensures
        spec_word_syllables_from(w, i, prev) >= 0,
    decreases w.len() - i,
{
    if 0 <= i < w.len() {
        lemma_word_syllables_nonneg(w, i + 1, spec_is_vowel(w[i]));
    }
}

/// Counts of character classes are never negative.
proof fn lemma_counts_nonneg(s: Seq<char>, i: int)
    ensures
        spec_count_cjk(s, i) >= 0,
        spec_count_letters(s, i) >= 0,
    decreases s.len() - i,
{
    if 0 <= i < s.len() {
        lemma_counts_nonneg(s, i + 1);
    }
}

/// The sentence pieces of a text: the parts between `.`, `!` and `?`, with
/// the blank ones dropped.
pub open spec fn spec_sentence_pieces(s: Seq<char>, i: int, cur: Seq<char>) -> Seq<Seq<char>>
    decreases s.len() - i,
{
    if i < 0 || i >= s.len() {
        seq![cur]
    } else if s[i] == '.' || s[i] == '!' || s[i] == '?' {
        seq![cur] + spec_sentence_pieces(s, i + 1, Seq::empty())
    } else {
        spec_sentence_pieces(s, i + 1, cur.push(s[i]))
    }
}

/// The sentences of a text: its pieces whose trimmed text is nonempty.
pub open spec fn spec_sentences(s: Seq<char>) -> Seq<Seq<char>> {
    spec_sentence_pieces(s, 0, Seq::empty()).filter(
        |p: Seq<char>| strutil::spec_trim(p).len() != 0,
    )
}

/// Splits a text into its nonblank sentences.
fn split_sentences(text: &str) -> (r: Vec<String>)
    ensures
        strutil::views_of(r@) == spec_sentences(text@),
{
    let n = text.unicode_len();
    let mut pieces: Vec<String> = Vec::new();
    let mut cur = String::new();
    let mut i: usize = 0;
    proof {
        reveal(Seq::filter);
        assert(strutil::views_of(pieces@) =~= Seq::<Seq<char>>::empty());
    }
    while i < n
        invariant
            n == text@.len(),
            i <= n,
            spec_sentences(text@) == strutil::views_of(pieces@).filter(
                |p: Seq<char>| strutil::spec_trim(p).len() != 0,
            ) + spec_sentence_pieces(text@, i as int, cur@).filter(
                |p: Seq<char>| strutil::spec_trim(p).len() != 0,
            ),
        decreases n - i,
    {
        let c = text.get_char(i);
        if c == '.' || c == '!' || c == '?' {
            let ghost pv = strutil::views_of(pieces@);
            let ghost cv = cur@;
            let done = cur;
            cur = String::new();
            pieces.push(done);
            proof {
                reveal(Seq::filter);
                assert(strutil::views_of(pieces@) =~= pv.push(cv));
                vstd::prelude::Seq::filter_distributes_over_add(
                    pv,
                    seq![cv],
                    |p: Seq<char>| strutil::spec_trim(p).len() != 0,
                );
                assert(seq![cv] =~= Seq::<Seq<char>>::empty().push(cv));
                assert(Seq::<Seq<char>>::empty().push(cv).drop_last() =~= Seq::<Seq<char>>::empty());
                vstd::prelude::Seq::filter_distributes_over_add(
                    pv,
                    seq![cv],
                    |p: Seq<char>| strutil::spec_trim(p).len() != 0,
                );
                assert((seq![cv] + spec_sentence_pieces(text@, i + 1, Seq::empty())).filter(
                    |p: Seq<char>| strutil::spec_trim(p).len() != 0,
                ) =~= seq![cv].filter(|p: Seq<char>| strutil::spec_trim(p).len() != 0)
                    + spec_sentence_pieces(text@, i + 1, Seq::empty()).filter(
                    |p: Seq<char>| strutil::spec_trim(p).len() != 0,
                )) by {
                    vstd::prelude::Seq::filter_distributes_over_add(
                        seq![cv],
                        spec_sentence_pieces(text@, i + 1, Seq::empty()),
                        |p: Seq<char>| strutil::spec_trim(p).len() != 0,
                    );
                }
                assert(strutil::views_of(pieces@).filter(
                    |p: Seq<char>| strutil::spec_trim(p).len() != 0,
                ) =~= (pv.filter(|p: Seq<char>| strutil::spec_trim(p).len() != 0) + seq![
                    cv,
                ].filter(|p: Seq<char>| strutil::spec_trim(p).len() != 0))) by {
                    vstd::prelude::Seq::filter_distributes_over_add(
                        pv,
                        seq![cv],
                        |p: Seq<char>| strutil::spec_trim(p).len() != 0,
                    );
                    assert(strutil::views_of(pieces@) =~= pv + seq![cv]);
                }
            }
        } else {
            cur.push(c);
        }
        i += 1;
    }
    let ghost pv = strutil::views_of(pieces@);
    let ghost cv = cur@;
    pieces.push(cur);
    proof {
        reveal(Seq::filter);
        assert(strutil::views_of(pieces@) =~= pv + seq![cv]);
        vstd::prelude::Seq::filter_distributes_over_add(
            pv,
            seq![cv],
            |p: Seq<char>| strutil::spec_trim(p).len() != 0,
        );
        assert(spec_sentence_pieces(text@, n as int, cv) =~= seq![cv]);
    }
    let mut kept: Vec<String> = Vec::new();
    let mut j: usize = 0;
    proof {
        reveal(Seq::filter);
        assert(strutil::views_of(pieces@).subrange(0, 0) =~= Seq::<Seq<char>>::empty());
        assert(strutil::views_of(kept@) =~= Seq::<Seq<char>>::empty());
    }
    while j < pieces.len()
        invariant
            j <= pieces@.len(),
            strutil::views_of(kept@) == strutil::views_of(pieces@).subrange(0, j as int).filter(
                |p: Seq<char>| strutil::spec_trim(p).len() != 0,
            ),
        decreases pieces@.len() - j,
    {
        let ghost pre = strutil::views_of(pieces@).subrange(0, j as int);
        let t = strutil::str_trim(pieces[j].as_str());
        if !t.as_str().is_empty() {
            let ghost kv = strutil::views_of(kept@);
            kept.push(pieces[j].clone());
            proof {
                assert(strutil::views_of(kept@) =~= kv.push(pieces@[j as int]@));
            }
        }
        proof {
            reveal(Seq::filter);
            let post = strutil::views_of(pieces@).subrange(0, j + 1);
            assert(post.drop_last() =~= pre);
            assert(post.last() == pieces@[j as int]@);
        }
        j += 1;
    }
    proof {
        assert(strutil::views_of(pieces@).subrange(0, pieces@.len() as int) =~= strutil::views_of(
            pieces@,
        ));
    }
    kept
}

/// A word character: an ASCII letter or digit, or anything above U+0080.
pub open spec fn spec_is_wordchar(c: char) -> bool {
    ('a' <= c && c <= 'z') || ('A' <= c && c <= 'Z') || ('0' <= c && c <= '9') || (c as u32)
        >= 0x80
}

fn is_wordchar(c: char) -> (r: bool)
    ensures
        r == spec_is_wordchar(c),
{
    ('a' <= c && c <= 'z') || ('A' <= c && c <= 'Z') || ('0' <= c && c <= '9') || (c as u32)
        >= 0x80
}

/// The ASCII-folded form of a character: capitals lowered, all else kept.
pub open spec fn spec_fold_char(c: char) -> char {
    if 'A' <= c && c <= 'Z' {
        (((c as u32) + 32) as u32) as char
    } else {
        c
    }
}

/// The cleaned form of a token: its word characters in order, ASCII
/// capitals lowered when `fold_case` is set.
pub open spec fn spec_clean_word(w: Seq<char>, fold_case: bool) -> Seq<char>
    decreases w.len(),
{
    if w.len() == 0 {
        Seq::empty()
    } else {
        let rest = spec_clean_word(w.drop_last(), fold_case);
        if spec_is_wordchar(w.last()) {
            rest.push(
                if fold_case {
                    spec_fold_char(w.last())
                } else {
                    w.last()
                },
            )
        } else {
            rest
        }
    }
}

/// Cleans one token for keyword counting: keeps its word characters,
/// lowercasing ASCII capitals when `fold_case` is set.
fn clean_word(w: &str, fold_case: bool) -> (r: String)
    ensures
        r@ == spec_clean_word(w@, fold_case),
{
    let n = w.unicode_len();
    let mut out = String::new();
    let mut i: usize = 0;
    proof {
        assert(w@.take(0) =~= Seq::<char>::empty());
        assert(out@ =~= spec_clean_word(w@.take(0), fold_case));
    }
    while i < n
        invariant
            n == w@.len(),
            i <= n,
            out@ == spec_clean_word(w@.take(i as int), fold_case),
        decreases n - i,
    {
        let c = w.get_char(i);
        let ghost pre = w@.take(i as int);
        if is_wordchar(c) {
            let folded = if fold_case && 'A' <= c && c <= 'Z' {
                let code = (c as u32) + 32;
                proof {
                    assert('a' as u32 <= code <= 'z' as u32);
                }
                char_from_u32(code)
            } else {
                c
            };
            proof {
                if fold_case {
                    assert(folded == spec_fold_char(c));
                }
            }
            out.push(folded);
        }
        proof {
            let post = w@.take(i + 1);
            assert(post.drop_last() =~= pre);
            assert(post.last() == w@[i as int]);
            assert(out@ == spec_clean_word(post, fold_case));
        }
        i += 1;
    }
    proof {
        assert(w@.take(n as int) =~= w@);
    }
    out
}

/// Relies on `char::from_u32`: the character of a valid code point.
#[verifier::external_body]
fn char_from_u32(code: u32) -> (r: char)
    requires
        code < 0xD800 || (0xE000 <= code < 0x110000),
    ensures
        r as u32 == code,
{
    char::from_u32(code).unwrap()
}

/// The views of the stop words, in catalog order.
pub open spec fn spec_stop_word_views() -> Seq<Seq<char>> {
    seq![
        "the"@, "a"@, "an"@, "and"@, "or"@, "but"@, "in"@, "on"@, "at"@, "to"@,
        "for"@, "of"@, "with"@, "by"@, "is"@, "are"@, "was"@, "were"@, "be"@, "been"@,
        "have"@, "has"@, "had"@, "do"@, "does"@, "did"@, "will"@, "would"@, "could"@,
        "should"@, "的"@, "了"@, "在"@, "是"@, "我"@, "你"@, "他"@, "她"@, "它"@, "们"@,
        "这"@, "那"@, "有"@, "和"@, "与"@, "或"@, "但"@, "如果"@, "因为"@, "所以"@,
        "然后"@, "现在"@, "一个"@, "多个"@, "包含"@, "还有"@,
    ]
}

/// Whether `w` is one of the stop words dropped from keyword extraction.
pub open spec fn spec_is_stop_word(w: Seq<char>) -> bool {
    spec_stop_word_views().contains(w)
}

/// The stop words dropped from keyword extraction.
fn stop_word_list() -> (r: Vec<String>)
    ensures
        strutil::views_of(r@) == spec_stop_word_views(),
{
    let mut v: Vec<String> = Vec::new();
    v.push(String::from_str("the"));
    v.push(String::from_str("a"));
    v.push(String::from_str("an"));
    v.push(String::from_str("and"));
    v.push(String::from_str("or"));
    v.push(String::from_str("but"));
    v.push(String::from_str("in"));
    v.push(String::from_str("on"));
    v.push(String::from_str("at"));
    v.push(String::from_str("to"));
    v.push(String::from_str("for"));
    v.push(String::from_str("of"));
    v.push(String::from_str("with"));
    v.push(String::from_str("by"));
    v.push(String::from_str("is"));
    v.push(String::from_str("are"));
    v.push(String::from_str("was"));
    v.push(String::from_str("were"));
    v.push(String::from_str("be"));
    v.push(String::from_str("been"));
    v.push(String::from_str("have"));
    v.push(String::from_str("has"));
    v.push(String::from_str("had"));
    v.push(String::from_str("do"));
    v.push(String::from_str("does"));
    v.push(String::from_str("did"));
    v.push(String::from_str("will"));
    v.push(String::from_str("would"));
    v.push(String::from_str("could"));
    v.push(String::from_str("should"));
    v.push(String::from_str("的"));
    v.push(String::from_str("了"));
    v.push(String::from_str("在"));
    v.push(String::from_str("是"));
    v.push(String::from_str("我"));
    v.push(String::from_str("你"));
    v.push(String::from_str("他"));
    v.push(String::from_str("她"));
    v.push(String::from_str("它"));
    v.push(String::from_str("们"));
    v.push(String::from_str("这"));
    v.push(String::from_str("那"));
    v.push(String::from_str("有"));
    v.push(String::from_str("和"));
    v.push(String::from_str("与"));
    v.push(String::from_str("或"));
    v.push(String::from_str("但"));
    v.push(String::from_str("如果"));
    v.push(String::from_str("因为"));
    v.push(String::from_str("所以"));
    v.push(String::from_str("然后"));
    v.push(String::from_str("现在"));
    v.push(String::from_str("一个"));
    v.push(String::from_str("多个"));
    v.push(String::from_str("包含"));
    v.push(String::from_str("还有"));
    proof {
        assert(strutil::views_of(v@) =~= spec_stop_word_views());
    }
    v
}

/// Whether keyword extraction reads the text as Chinese: more than a third
/// of its characters are CJK.
pub open spec fn spec_kw_chinese(text: Seq<char>) -> bool {
    spec_count_cjk(text, 0) > text.len() / 3
}

/// The shortest keyword kept, in characters.
pub open spec fn spec_kw_min_len(chinese: bool) -> int {
    if chinese {
        2
    } else {
        3
    }
}

/// The cleaned form of the text's `j`-th token: case is folded unless the
/// text reads as Chinese.
pub open spec fn spec_kw_candidate(text: Seq<char>, j: int) -> Seq<char> {
    spec_clean_word(strutil::spec_tokens(text)[j], !spec_kw_chinese(text))
}

/// Whether a cleaned token qualifies as a keyword: long enough and not a
/// stop word.
pub open spec fn spec_kw_qualifies(text: Seq<char>, w: Seq<char>) -> bool {
    w.len() >= spec_kw_min_len(spec_kw_chinese(text)) && !spec_is_stop_word(w)
}

/// Whether `w` is a keyword of `text`: the qualifying cleaned form of one of
/// its tokens.
pub open spec fn spec_is_keyword_of(text: Seq<char>, w: Seq<char>) -> bool {
    spec_kw_qualifies(text, w) && exists|j: int|
        0 <= j < strutil::spec_tokens(text).len() && spec_kw_candidate(text, j) == w
}

/// How many of the text's first `j` tokens clean to `w`.
pub open spec fn spec_kw_freq_upto(text: Seq<char>, w: Seq<char>, j: int) -> int
    decreases j,
{
    if j <= 0 {
        0
    } else {
        spec_kw_freq_upto(text, w, j - 1) + (if spec_kw_candidate(text, j - 1) == w {
            1int
        } else {
            0int
        })
    }
}

/// How many of the text's tokens clean to `w`.
pub open spec fn spec_kw_freq(text: Seq<char>, w: Seq<char>) -> int {
    spec_kw_freq_upto(text, w, strutil::spec_tokens(text).len() as int)
}

/// Occurrence counts over a token prefix never exceed the prefix length.
proof fn lemma_kw_freq_upto_le(text: Seq<char>, w: Seq<char>, j: int)
    requires
        j >= 0,
    ensures
        0 <= spec_kw_freq_upto(text, w, j) <= j,
    decreases j,
{
    if j > 0 {
        lemma_kw_freq_upto_le(text, w, j - 1);
    }
}

/// A word no prefix token cleans to has no occurrences there.
proof fn lemma_kw_freq_upto_zero(text: Seq<char>, w: Seq<char>, j: int)
    requires
        j >= 0,
        forall|m: int| 0 <= m < j ==> spec_kw_candidate(text, m) != w,
    ensures
        spec_kw_freq_upto(text, w, j) == 0,
    decreases j,
{
    if j > 0 {
        lemma_kw_freq_upto_zero(text, w, j - 1);
    }
}

/// A word some prefix token cleans to occurs at least once there.
proof fn lemma_kw_freq_upto_pos(text: Seq<char>, w: Seq<char>, j: int, hit: int)
    requires
        0 <= hit < j,
        spec_kw_candidate(text, hit) == w,
    ensures
        spec_kw_freq_upto(text, w, j) >= 1,
    decreases j,
{
    if hit == j - 1 {
        lemma_kw_freq_upto_le(text, w, j - 1);
    } else {
        lemma_kw_freq_upto_pos(text, w, j - 1, hit);
    }
}

/// What SHA-256 digests a byte sequence to; the digest is a function of the
/// bytes alone.
pub uninterp spec fn sha256_of(data: Seq<u8>) -> Seq<u8>;

/// Relies on `sha2::Sha256`: the 32-byte digest of the input.
#[verifier::external_body]
fn sha256_digest(data: &[u8]) -> (r: Vec<u8>)
    ensures
        r@ == sha256_of(data@),
        r@.len() == 32,
{
    let mut hasher = sha2::Sha256::new();
    hasher.update(data);
    hasher.finalize().to_vec()
}

/// The character of one hexadecimal digit, lower case.
pub open spec fn spec_hex_digit(d: nat) -> char {
    if d < 10 {
        strutil::spec_digit_char(d)
    } else if d == 10 {
        'a'
    } else if d == 11 {
        'b'
    } else if d == 12 {
        'c'
    } else if d == 13 {
        'd'
    } else if d == 14 {
        'e'
    } else {
        'f'
    }
}

/// The lower-case hexadecimal rendering of bytes, two digits per byte.
pub open spec fn spec_hex_bytes(b: Seq<u8>) -> Seq<char> {
    Seq::new(
        b.len() * 2,
        |i: int|
            if i % 2 == 0 {
                spec_hex_digit((b[i / 2] / 16) as nat)
            } else {
                spec_hex_digit((b[i / 2] % 16) as nat)
            },
    )
}

fn hex_digit(d: u8) -> (c: char)
    requires
        d < 16,
    ensures
        c == spec_hex_digit(d as nat),
{
    if d == 0 { '0' }
    else if d == 1 { '1' }
    else if d == 2 { '2' }
    else if d == 3 { '3' }
    else if d == 4 { '4' }
    else if d == 5 { '5' }
    else if d == 6 { '6' }
    else if d == 7 { '7' }
    else if d == 8 { '8' }
    else if d == 9 { '9' }
    else if d == 10 { 'a' }
    else if d == 11 { 'b' }
    else if d == 12 { 'c' }
    else if d == 13 { 'd' }
    else if d == 14 { 'e' }
    else { 'f' }
}

/// Renders bytes as lower-case hexadecimal.
pub fn hex_of_bytes(b: &Vec<u8>) -> (r: String)
    ensures
        r@ == spec_hex_bytes(b@),
{
    let mut out = String::new();
    let mut i: usize = 0;
    while i < b.len()
        invariant
            i <= b@.len(),
            out@ =~= spec_hex_bytes(b@).take(2 * i),
        decreases b@.len() - i,
    {
        let byte = b[i];
        out.push(hex_digit(byte / 16));
        out.push(hex_digit(byte % 16));
        proof {
            assert(out@ =~= spec_hex_bytes(b@).take(2 * (i + 1)));
        }
        i += 1;
    }
    proof {
        assert(out@ =~= spec_hex_bytes(b@));
    }
    out
}

impl HashUtils {
    /// The SHA-256 digest of a string, as 64 hexadecimal characters.
    pub fn hash_string(input: &str) -> (r: String)
        ensures
            r@ == spec_hex_bytes(sha256_of(input.spec_bytes())),
            r@.len() == 64,
    {
        let digest = sha256_digest(input.as_bytes());
        hex_of_bytes(&digest)
    }

    /// The SHA-256 digest of bytes, as 64 hexadecimal characters.
    pub fn hash_bytes(data: &Vec<u8>) -> (r: String)
        ensures
            r@ == spec_hex_bytes(sha256_of(data@)),
            r@.len() == 64,
    {
        let digest = sha256_digest(data.as_slice());
        hex_of_bytes(&digest)
    }

    /// The first `length` characters of the string's digest, all 64 at most.
    pub fn short_hash(input: &str, length: usize) -> (r: String)
        ensures
            r@ == spec_hex_bytes(sha256_of(input.spec_bytes())).take(
                if length <= 64 {
                    length as int
                } else {
                    64
                },
            ),
    {
        let full = HashUtils::hash_string(input);
        let keep = if length <= 64 {
            length
        } else {
            64
        };
        let cut = full.as_str().substring_char(0, keep);
        let r = String::from_str(cut);
        proof {
            assert(r@ =~= spec_hex_bytes(sha256_of(input.spec_bytes())).take(keep as int));
        }
        r
    }

    /// Whether `expected_hash` is the digest of `input`.
    pub fn verify_hash(input: &str, expected_hash: &str) -> (r: bool)
        ensures
            r == (spec_hex_bytes(sha256_of(input.spec_bytes())) == expected_hash@),
    {
        let actual = HashUtils::hash_string(input);
        strutil::str_eq(actual.as_str(), expected_hash)
    }
}

/// Relies on `std::mem::size_of_val`: the size of a slice is its length
/// times the element size.
#[verifier::external_body]
fn slice_byte_size<T>(items: &[T]) -> (r: usize)
    ensures
        r == items@.len() * vstd::layout::size_of::<T>(),
{
    std::mem::size_of_val(items)
}

impl CacheUtils {
    /// The bytes a slice of items occupies.
    pub fn estimate_memory_usage<T>(items: &[T]) -> (r: usize)
        ensures
            r == items@.len() * vstd::layout::size_of::<T>(),
    {
        slice_byte_size(items)
    }

    /// The cache key of a list of components: the digest of their bytes,
    /// concatenated in order.
    pub fn generate_cache_key(components: &Vec<String>) -> (r: String)
        ensures
            r@ == spec_hex_bytes(sha256_of(spec_concat_bytes(components@))),
            r@.len() == 64,
    {
        let mut bytes: Vec<u8> = Vec::new();
        let mut i: usize = 0;
        proof {
            assert(bytes@ =~= spec_concat_bytes(components@.take(0)));
        }
        while i < components.len()
            invariant
                i <= components@.len(),
                bytes@ == spec_concat_bytes(components@.take(i as int)),
            decreases components@.len() - i,
        {
            let piece = components[i].as_str().as_bytes_vec();
            let ghost pre = bytes@;
            let mut piece_m = piece;
            bytes.append(&mut piece_m);
            proof {
                let post = components@.take(i + 1);
                assert(post.drop_last() =~= components@.take(i as int));
                assert(post.last() == components@[i as int]);
                assert(bytes@ =~= spec_concat_bytes(post));
            }
            i += 1;
        }
        proof {
            assert(components@.take(components@.len() as int) =~= components@);
        }
        let digest = sha256_digest(bytes.as_slice());
        hex_of_bytes(&digest)
    }

    /// Whether a sweep is due: never swept, or the interval has passed.
    pub fn should_cleanup(last_cleanup: Option<u64>, interval_ms: u64, now_ms: u64) -> (r: bool)
        ensures
            r == (match last_cleanup {
                Some(t) => now_ms > t + interval_ms,
                None => true,
            }),
    {
        match last_cleanup {
            Some(t) => now_ms > t && now_ms - t > interval_ms,
            None => true,
        }
    }
}

/// The bytes of a list of strings, concatenated in order.
pub open spec fn spec_concat_bytes(components: Seq<String>) -> Seq<u8>
    decreases components.len(),
{
    if components.len() == 0 {
        Seq::empty()
    } else {
        spec_concat_bytes(components.drop_last()) + vstd::utf8::encode_utf8(components.last()@)
    }
}

impl BatchUtils {
    /// Splits `data` into consecutive batches of `chunk_size` items, the last
    /// one possibly shorter; a zero size yields the whole input as one batch.
    pub fn chunk<T: Copy>(data: Vec<T>, chunk_size: usize) -> (r: Vec<Vec<T>>)
        ensures
            chunk_size == 0 ==> r@.len() == 1 && r@[0]@ == data@,
            chunk_size > 0 ==> r@.len() == (data@.len() + chunk_size - 1) / (chunk_size as int),
            chunk_size > 0 ==> forall|i: int|
                0 <= i < r@.len() ==> (#[trigger] r@[i])@ == data@.subrange(
                    i * (chunk_size as int),
                    if (i + 1) * (chunk_size as int) <= data@.len() {
                        (i + 1) * (chunk_size as int)
                    } else {
                        data@.len() as int
                    },
                ),
    {
        if chunk_size == 0 {
            let mut r: Vec<Vec<T>> = Vec::new();
            r.push(data);
            return r;
        }
        let n = data.len();
        let mut out: Vec<Vec<T>> = Vec::new();
        let mut start: usize = 0;
        proof {
            assert(out@.len() * (chunk_size as int) == 0) by (nonlinear_arith)
                requires out@.len() == 0,
            ;
        }
        while start < n
            invariant
                n == data@.len(),
                chunk_size > 0,
                start <= n,
                start == out@.len() * (chunk_size as int) || start == n,
                start == n && start != out@.len() * (chunk_size as int) ==> out@.len() == (
                n + chunk_size - 1) / (chunk_size as int),
                forall|i: int|
                    0 <= i < out@.len() ==> (#[trigger] out@[i])@ == data@.subrange(
                        i * (chunk_size as int),
                        if (i + 1) * (chunk_size as int) <= n {
                            (i + 1) * (chunk_size as int)
                        } else {
                            n as int
                        },
                    ),
            decreases n - start,
        {
            let end = if n - start >= chunk_size {
                start + chunk_size
            } else {
                n
            };
            let mut piece: Vec<T> = Vec::new();
            let mut j: usize = start;
            while j < end
                invariant
                    start <= j <= end <= n,
                    n == data@.len(),
                    piece@ =~= data@.subrange(start as int, j as int),
                decreases end - j,
            {
                piece.push(data[j]);
                proof {
                    assert(piece@ =~= data@.subrange(start as int, j + 1));
                }
                j += 1;
            }
            let ghost prev_len = out@.len() as int;
            let cs = chunk_size;
            proof {
                assert(start == prev_len * (cs as int));
                assert((prev_len + 1) * (cs as int) == prev_len * (cs as int) + cs)
                    by (nonlinear_arith);
                if end < start + cs {
                    // The partial final batch: the count is now the ceiling.
                    assert(prev_len + 1 == (n + cs - 1) / (cs as int)) by (nonlinear_arith)
                        requires
                            cs > 0,
                            start == prev_len * (cs as int),
                            start < n < start + cs,
                            n == end,
                    ;
                }
            }
            out.push(piece);
            start = end;
        }
        proof {
            let cs = chunk_size as int;
            if start == out@.len() * cs {
                assert(out@.len() == (n + cs - 1) / cs) by (nonlinear_arith)
                    requires cs > 0 && n == out@.len() * cs && out@.len() >= 0,
                ;
            }
        }
        out
    }
}

/// What gzip compresses a byte sequence to; the output is a function of the
/// bytes alone.
pub uninterp spec fn gzip_of(data: Seq<u8>) -> Seq<u8>;

/// What gunzip decodes a byte sequence to.
pub uninterp spec fn gunzip_of(data: Seq<u8>) -> Seq<u8>;

/// Relies on `flate2::write::GzEncoder`: compresses the bytes; decompressing
/// the output gives the input back.
#[verifier::external_body]
fn gzip_bytes(data: &[u8]) -> (r: Vec<u8>)
    ensures
        r@ == gzip_of(data@),
        gunzip_of(r@) == data@,
{
    let mut encoder = flate2::write::GzEncoder::new(Vec::new(), flate2::Compression::default());
    let _ = encoder.write_all(data);
    encoder.finish().unwrap_or_default()
}

/// Relies on `flate2::read::GzDecoder`: decodes gzip data; data that is not
/// valid gzip yields nothing, and data the gzip encoder produced decodes
/// back to what was encoded.
#[verifier::external_body]
fn gunzip_bytes(data: &[u8]) -> (r: Option<Vec<u8>>)
    ensures
        r is Some ==> r.unwrap()@ == gunzip_of(data@),
        forall|b: Seq<u8>| data@ == gzip_of(b) ==> r is Some && r.unwrap()@ == b,
{
    let mut decoder = flate2::read::GzDecoder::new(data);
    let mut out = Vec::new();
    match decoder.read_to_end(&mut out) {
        Ok(_) => Some(out),
        Err(_) => None,
    }
}

/// What compressing a byte sequence produced.
#[derive(Debug, Clone, PartialEq)]
pub struct CompressionResult {
    /// The compressed bytes.
    pub compressed_data: Vec<u8>,
    /// How many bytes went in.
    pub original_size: usize,
    /// How many bytes came out.
    pub compressed_size: usize,
    /// Output size over input size, in thousandths; 1000 for empty input.
    pub compression_ratio: u64,
}

impl SerializationUtils {
    /// Compresses bytes with gzip and reports the sizes; decompressing the
    /// result gives the input back.
    pub fn compress(data: &Vec<u8>) -> (r: CompressionResult)
        ensures
            r.compressed_data@ == gzip_of(data@),
            gunzip_of(r.compressed_data@) == data@,
            r.original_size == data@.len(),
            r.compressed_size == r.compressed_data@.len(),
            data@.len() > 0 ==> ({
                let q = (r.compressed_data@.len() * 1000) as int / (data@.len() as int);
                r.compression_ratio == (if q > u64::MAX {
                    u64::MAX as int
                } else {
                    q
                })
            }),
            data@.len() == 0 ==> r.compression_ratio == 1000,
    {
        let compressed_data = gzip_bytes(data.as_slice());
        let original_size = data.len();
        let compressed_size = compressed_data.len();
        let compression_ratio: u64 = if original_size > 0 {
            let q: u128 = ((compressed_size as u128) * 1000) / (original_size as u128);
            if q > (u64::MAX as u128) {
                u64::MAX
            } else {
                q as u64
            }
        } else {
            1000
        };
        CompressionResult { compressed_data, original_size, compressed_size, compression_ratio }
    }

    /// Decodes gzip data; data that is not valid gzip yields nothing, and
    /// what [`Self::compress`] produced decodes back to its input.
    pub fn decompress(compressed_data: &Vec<u8>) -> (r: Option<Vec<u8>>)
        ensures
            r is Some ==> r.unwrap()@ == gunzip_of(compressed_data@),
            forall|b: Seq<u8>| compressed_data@ == gzip_of(b) ==> r is Some && r.unwrap()@ == b,
    {
        gunzip_bytes(compressed_data.as_slice())
    }
}

/// Relies on `uuid::Uuid::new_v4` and its hyphenated rendering: a random
/// identifier of 36 characters.
#[verifier::external_body]
fn uuid_hyphenated() -> (r: String)
    ensures
        r@.len() == 36,
{
    uuid::Uuid::new_v4().to_string()
}

/// Relies on `uuid::Uuid::new_v4` and its simple rendering: a random
/// identifier of 32 hexadecimal characters.
#[verifier::external_body]
fn uuid_simple() -> (r: String)
    ensures
        r@.len() == 32,
{
    uuid::Uuid::new_v4().simple().to_string()
}

impl IdGenerator {
    /// A fresh memory id: `mem_` and a random identifier.
    pub fn generate_memory_id() -> (r: String)
        ensures
            r@.len() == 40,
            strutil::spec_starts_with(r@, "mem_"@),
    {
        let mut s = String::from_str("mem_");
        let u = uuid_hyphenated();
        s.append(u.as_str());
        proof {
            reveal_strlit("mem_");
            assert(r#"mem_"#@ =~= s@.subrange(0, 4));
        }
        s
    }

    /// A fresh connection id: `conn_` and a random identifier.
    pub fn generate_connection_id() -> (r: String)
        ensures
            r@.len() == 41,
            strutil::spec_starts_with(r@, "conn_"@),
    {
        let mut s = String::from_str("conn_");
        let u = uuid_hyphenated();
        s.append(u.as_str());
        proof {
            reveal_strlit("conn_");
            assert(r#"conn_"#@ =~= s@.subrange(0, 5));
        }
        s
    }

    /// A fresh session id: `session_` and a random identifier.
    pub fn generate_session_id() -> (r: String)
        ensures
            r@.len() == 44,
            strutil::spec_starts_with(r@, "session_"@),
    {
        let mut s = String::from_str("session_");
        let u = uuid_hyphenated();
        s.append(u.as_str());
        proof {
            reveal_strlit("session_");
            assert(r#"session_"#@ =~= s@.subrange(0, 8));
        }
        s
    }

    /// A fresh query id: `query_` and a random identifier.
    pub fn generate_query_id() -> (r: String)
        ensures
            r@.len() == 42,
            strutil::spec_starts_with(r@, "query_"@),
    {
        let mut s = String::from_str("query_");
        let u = uuid_hyphenated();
        s.append(u.as_str());
        proof {
            reveal_strlit("query_");
            assert(r#"query_"#@ =~= s@.subrange(0, 6));
        }
        s
    }

    /// A fresh interaction id: `interaction_` and a random identifier.
    pub fn generate_interaction_id() -> (r: String)
        ensures
            r@.len() == 48,
            strutil::spec_starts_with(r@, "interaction_"@),
    {
        let mut s = String::from_str("interaction_");
        let u = uuid_hyphenated();
        s.append(u.as_str());
        proof {
            reveal_strlit("interaction_");
            assert(r#"interaction_"#@ =~= s@.subrange(0, 12));
        }
        s
    }

    /// A fresh id of `prefix`, the given time in decimal, and a random
    /// identifier, underscore-separated.
    pub fn generate_time_based_id(prefix: &str, now_ms: u64) -> (r: String)
        ensures
            exists|u: Seq<char>|
                u.len() == 32 && r@ == prefix@ + "_"@ + strutil::spec_decimal(now_ms as nat)
                    + "_"@ + u,
    {
        let mut s = String::from_str(prefix);
        s.append("_");
        let ts = strutil::u64_to_string(now_ms);
        s.append(ts.as_str());
        s.append("_");
        let u = uuid_simple();
        s.append(u.as_str());
        proof {
            assert(s@ =~= prefix@ + "_"@ + strutil::spec_decimal(now_ms as nat) + "_"@ + u@);
        }
        s
    }

    /// A fresh short id: the first `length` characters of a random
    /// identifier, all 32 at most.
    pub fn generate_short_id(length: usize) -> (r: String)
        ensures
            r@.len() == (if length <= 32 {
                length as int
            } else {
                32
            }),
    {
        let u = uuid_simple();
        let keep = if length <= 32 {
            length
        } else {
            32
        };
        let cut = u.as_str().substring_char(0, keep);
        String::from_str(cut)
    }
}

} // verus!
