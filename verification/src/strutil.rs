//! Verified helpers for building and inspecting strings.
//!
//! Text is reasoned about as sequences of characters (`Seq<char>`).
//! Whitespace means ASCII whitespace throughout the crate.

use vstd::prelude::*;

verus! {

/// Relies on `String::push`: appends the given character to the end of the string.
pub assume_specification[ String::push ](s: &mut String, c: char)
    ensures
        final(s)@ == old(s)@.push(c),
;

/// ASCII whitespace, the token separator used by the crate.
pub open spec fn spec_is_space(c: char) -> bool {
    c == ' ' || c == '\t' || c == '\n' || c == '\r'
}

pub fn is_space(c: char) -> (r: bool)
    ensures
        r == spec_is_space(c),
{
    c == ' ' || c == '\t' || c == '\n' || c == '\r'
}

/// The character for one decimal digit.
pub open spec fn spec_digit_char(d: nat) -> char {
    if d == 0 { '0' }
    else if d == 1 { '1' }
    else if d == 2 { '2' }
    else if d == 3 { '3' }
    else if d == 4 { '4' }
    else if d == 5 { '5' }
    else if d == 6 { '6' }
    else if d == 7 { '7' }
    else if d == 8 { '8' }
    else { '9' }
}

/// The decimal notation of a number, most significant digit first.
pub open spec fn spec_decimal(n: nat) -> Seq<char>
    decreases n,
{
    if n < 10 {
        seq![spec_digit_char(n)]
    } else {
        spec_decimal(n / 10).push(spec_digit_char(n % 10))
    }
}

fn digit_char(d: u64) -> (c: char)
    requires
        d < 10,
    ensures
        c == spec_digit_char(d as nat),
{
    if d == 0 { '0' }
    else if d == 1 { '1' }
    else if d == 2 { '2' }
    else if d == 3 { '3' }
    else if d == 4 { '4' }
    else if d == 5 { '5' }
    else if d == 6 { '6' }
    else if d == 7 { '7' }
    else if d == 8 { '8' }
    else { '9' }
}

/// Decimal rendering of an unsigned number.
pub fn u64_to_string(n: u64) -> (r: String)
    ensures
        r@ == spec_decimal(n as nat),
    decreases n,
{
    if n < 10 {
        let mut s = String::new();
        s.push(digit_char(n));
        s
    } else {
        let mut s = u64_to_string(n / 10);
        s.push(digit_char(n % 10));
        s
    }
}

/// Rendering of a value held in thousandths as a number with two decimal
/// places, the fraction truncated: 850 becomes "0.85".
pub open spec fn spec_milli_two_places(n: nat) -> Seq<char> {
    spec_decimal(n / 1000) + seq!['.', spec_digit_char((n % 1000) / 100), spec_digit_char(
        ((n % 1000) / 10) % 10,
    )]
}

pub fn milli_to_two_places(n: u64) -> (r: String)
    ensures
        r@ == spec_milli_two_places(n as nat),
{
    let mut s = u64_to_string(n / 1000);
    s.push('.');
    s.push(digit_char((n % 1000) / 100));
    s.push(digit_char(((n % 1000) / 10) % 10));
    s
}

/// Whether `pat` occurs in `hay` starting at position `i`.
pub open spec fn spec_match_at(hay: Seq<char>, i: int, pat: Seq<char>) -> bool {
    0 <= i && i + pat.len() <= hay.len() && hay.subrange(i, i + pat.len() as int) == pat
}

/// Whether `pat` occurs somewhere in `hay`.
pub open spec fn spec_contains(hay: Seq<char>, pat: Seq<char>) -> bool {
    exists|i: int| spec_match_at(hay, i, pat)
}

use vstd::string::StrSliceExecFns;

/// Compares `pat` against `hay` at position `i`, character by character.
pub fn match_at(hay: &str, hay_len: usize, i: usize, pat: &str, pat_len: usize) -> (r: bool)
    requires
        hay_len == hay@.len(),
        pat_len == pat@.len(),
        i + pat_len <= hay_len,
    ensures
        r == spec_match_at(hay@, i as int, pat@),
{
    let mut j: usize = 0;
    while j < pat_len
        invariant
            hay_len == hay@.len(),
            pat_len == pat@.len(),
            i + pat_len <= hay_len,
            j <= pat_len,
            forall|k: int| 0 <= k < j ==> hay@[i + k] == pat@[k],
        decreases pat_len - j,
    {
        if hay.get_char(i + j) != pat.get_char(j) {
            assert(!spec_match_at(hay@, i as int, pat@)) by {
                if spec_match_at(hay@, i as int, pat@) {
                    assert(hay@.subrange(i as int, i + pat@.len() as int)[j as int] == pat@[
                        j as int
                    ]);
                }
            }
            return false;
        }
        j += 1;
    }
    assert(hay@.subrange(i as int, i + pat@.len() as int) =~= pat@);
    true
}

/// Whether `pat` occurs as a substring of `hay`.
pub fn str_contains(hay: &str, pat: &str) -> (r: bool)
    ensures
        r == spec_contains(hay@, pat@),
{
    let hay_len = hay.unicode_len();
    let pat_len = pat.unicode_len();
    if pat_len > hay_len {
        assert(forall|i: int| !spec_match_at(hay@, i, pat@));
        return false;
    }
    if pat_len == 0 {
        assert(spec_match_at(hay@, 0, pat@)) by {
            assert(hay@.subrange(0, 0) =~= pat@);
        }
        return true;
    }
    let last = hay_len - pat_len;
    let mut i: usize = 0;
    while i < last + 1
        invariant
            hay_len == hay@.len(),
            pat_len == pat@.len(),
            0 < pat_len <= hay_len,
            last == hay_len - pat_len,
            i <= last + 1,
            forall|k: int| 0 <= k < i ==> !spec_match_at(hay@, k, pat@),
        decreases last + 1 - i,
    {
        if match_at(hay, hay_len, i, pat, pat_len) {
            return true;
        }
        i += 1;
    }
    assert(forall|k: int| spec_match_at(hay@, k, pat@) ==> 0 <= k < i);
    false
}

/// Whether `hay` ends with `pat`.
pub open spec fn spec_ends_with(hay: Seq<char>, pat: Seq<char>) -> bool {
    pat.len() <= hay.len() && spec_match_at(hay, hay.len() - pat.len(), pat)
}

pub fn str_ends_with(hay: &str, pat: &str) -> (r: bool)
    ensures
        r == spec_ends_with(hay@, pat@),
{
    let hay_len = hay.unicode_len();
    let pat_len = pat.unicode_len();
    if pat_len > hay_len {
        return false;
    }
    match_at(hay, hay_len, hay_len - pat_len, pat, pat_len)
}

/// Whether `hay` starts with `pat`.
pub open spec fn spec_starts_with(hay: Seq<char>, pat: Seq<char>) -> bool {
    pat.len() <= hay.len() && spec_match_at(hay, 0, pat)
}

pub fn str_starts_with(hay: &str, pat: &str) -> (r: bool)
    ensures
        r == spec_starts_with(hay@, pat@),
{
    let hay_len = hay.unicode_len();
    let pat_len = pat.unicode_len();
    if pat_len > hay_len {
        return false;
    }
    match_at(hay, hay_len, 0, pat, pat_len)
}

/// The tokens of `s` from position `i` on, with `cur` the token read so far.
pub open spec fn spec_tokens_from(s: Seq<char>, i: int, cur: Seq<char>) -> Seq<Seq<char>>
    decreases s.len() - i,
{
    if i < 0 || i >= s.len() {
        if cur.len() == 0 {
            Seq::empty()
        } else {
            seq![cur]
        }
    } else if spec_is_space(s[i]) {
        if cur.len() == 0 {
            spec_tokens_from(s, i + 1, Seq::empty())
        } else {
            seq![cur] + spec_tokens_from(s, i + 1, Seq::empty())
        }
    } else {
        spec_tokens_from(s, i + 1, cur.push(s[i]))
    }
}

/// The whitespace-separated tokens of `s`.
pub open spec fn spec_tokens(s: Seq<char>) -> Seq<Seq<char>> {
    spec_tokens_from(s, 0, Seq::empty())
}

/// The views of a vector of strings.
pub open spec fn views_of(v: Seq<String>) -> Seq<Seq<char>> {
    v.map_values(|x: String| x@)
}

/// Splits `s` on ASCII whitespace.
pub fn tokenize(s: &str) -> (r: Vec<String>)
    ensures
        views_of(r@) == spec_tokens(s@),
{
    let len = s.unicode_len();
    let mut out: Vec<String> = Vec::new();
    let mut cur: String = String::new();
    let mut i: usize = 0;
    proof {
        assert(views_of(out@) =~= Seq::<Seq<char>>::empty());
        assert(views_of(out@) + spec_tokens_from(s@, 0, cur@) =~= spec_tokens_from(s@, 0, cur@));
    }
    while i < len
        invariant
            len == s@.len(),
            i <= len,
            spec_tokens(s@) == views_of(out@) + spec_tokens_from(s@, i as int, cur@),
        decreases len - i,
    {
        let c = s.get_char(i);
        if is_space(c) {
            if cur.as_str().is_empty() {
                proof {
                    assert(cur@ =~= Seq::<char>::empty());
                }
            } else {
                let ghost prev_out = out@;
                let ghost prev_cur = cur@;
                let done = cur;
                cur = String::new();
                out.push(done);
                proof {
                    assert(views_of(out@) =~= views_of(prev_out) + seq![prev_cur]);
                    assert(spec_tokens_from(s@, i as int, prev_cur) == seq![prev_cur]
                        + spec_tokens_from(s@, i + 1, Seq::empty()));
                    assert(views_of(prev_out) + (seq![prev_cur] + spec_tokens_from(
                        s@,
                        i + 1,
                        Seq::empty(),
                    )) =~= (views_of(prev_out) + seq![prev_cur]) + spec_tokens_from(
                        s@,
                        i + 1,
                        Seq::empty(),
                    ));
                }
            }
        } else {
            cur.push(c);
        }
        i += 1;
    }
    if !cur.as_str().is_empty() {
        let ghost prev_out = out@;
        let ghost prev_cur = cur@;
        out.push(cur);
        proof {
            assert(views_of(out@) =~= views_of(prev_out) + seq![prev_cur]);
            assert(spec_tokens_from(s@, i as int, prev_cur) == seq![prev_cur]);
            assert(views_of(prev_out) + seq![prev_cur] =~= spec_tokens(s@));
        }
    } else {
        assert(views_of(out@) + spec_tokens_from(s@, i as int, cur@) =~= views_of(out@));
    }
    out
}

/// Whether the views of two string slices agree.
pub fn str_eq(a: &str, b: &str) -> (r: bool)
    ensures
        r == (a@ == b@),
{
    let alen = a.unicode_len();
    let blen = b.unicode_len();
    if alen != blen {
        return false;
    }
    let r = match_at(a, alen, 0, b, blen);
    proof {
        if r {
            assert(a@.subrange(0, a@.len() as int) =~= a@);
        } else {
            if a@ == b@ {
                assert(a@.subrange(0, b@.len() as int) =~= b@);
            }
        }
    }
    r
}

/// Whether some string in `v` reads `s`.
pub open spec fn spec_has_str(v: Seq<String>, s: Seq<char>) -> bool {
    exists|i: int| 0 <= i < v.len() && v[i]@ == s
}

pub fn has_str(v: &Vec<String>, s: &str) -> (r: bool)
    ensures
        r == spec_has_str(v@, s@),
{
    let mut i: usize = 0;
    while i < v.len()
        invariant
            i <= v@.len(),
            forall|k: int| 0 <= k < i ==> v@[k]@ != s@,
        decreases v@.len() - i,
    {
        if str_eq(v[i].as_str(), s) {
            return true;
        }
        i += 1;
    }
    false
}

/// Index of the first character of `s` that is not ASCII whitespace, or the
/// length of `s` when every character is.
pub open spec fn spec_first_non_space(s: Seq<char>, from: int) -> int
    decreases s.len() - from,
{
    if from < 0 || from >= s.len() {
        s.len() as int
    } else if spec_is_space(s[from]) {
        spec_first_non_space(s, from + 1)
    } else {
        from
    }
}

/// One past the index of the last character of `s` that is not ASCII
/// whitespace, or 0 when every character is.
pub open spec fn spec_last_non_space_end(s: Seq<char>, upto: int) -> int
    decreases upto,
{
    if upto <= 0 || upto > s.len() {
        0
    } else if spec_is_space(s[upto - 1]) {
        spec_last_non_space_end(s, upto - 1)
    } else {
        upto
    }
}

/// `s` with ASCII whitespace removed from both ends.
pub open spec fn spec_trim(s: Seq<char>) -> Seq<char> {
    let a = spec_first_non_space(s, 0);
    let b = spec_last_non_space_end(s, s.len() as int);
    if a < b {
        s.subrange(a, b)
    } else {
        Seq::empty()
    }
}

proof fn lemma_last_non_space_end_le(s: Seq<char>, upto: int)
    ensures
        spec_last_non_space_end(s, upto) <= upto || upto < 0,
        0 <= spec_last_non_space_end(s, upto),
    decreases upto,
{
    if 0 < upto <= s.len() && spec_is_space(s[upto - 1]) {
        lemma_last_non_space_end_le(s, upto - 1);
    }
}

pub fn str_trim(s: &str) -> (r: String)
    ensures
        r@ == spec_trim(s@),
{
    let len = s.unicode_len();
    let mut a: usize = 0;
    while a < len && is_space(s.get_char(a))
        invariant
            len == s@.len(),
            a <= len,
            spec_first_non_space(s@, 0) == spec_first_non_space(s@, a as int),
        decreases len - a,
    {
        a += 1;
    }
    // The leading scan settles on the first non-space position.
    assert(spec_first_non_space(s@, 0) == a as int);
    let mut b: usize = len;
    while b > a && is_space(s.get_char(b - 1))
        invariant
            len == s@.len(),
            a <= b <= len,
            spec_last_non_space_end(s@, s@.len() as int) == spec_last_non_space_end(s@, b as int),
        decreases b,
    {
        b -= 1;
    }
    if a < b {
        assert(spec_last_non_space_end(s@, b as int) == b as int);
        let piece = s.substring_char(a, b);
        String::from_str(piece)
    } else {
        let r = String::new();
        proof {
            lemma_last_non_space_end_le(s@, b as int);
            assert(spec_last_non_space_end(s@, s@.len() as int) <= a as int);
        }
        assert(r@ =~= spec_trim(s@));
        r
    }
}


/// The strings of `parts` joined with `sep` between them.
pub open spec fn spec_join(parts: Seq<Seq<char>>, sep: Seq<char>) -> Seq<char>
    decreases parts.len(),
{
    if parts.len() == 0 {
        Seq::empty()
    } else if parts.len() == 1 {
        parts[0]
    } else {
        spec_join(parts.drop_last(), sep) + sep + parts.last()
    }
}

/// Joins strings with a separator.
pub fn join_strings(parts: &Vec<String>, sep: &str) -> (r: String)
    ensures
        r@ == spec_join(views_of(parts@), sep@),
{
    let mut out = String::new();
    let mut i: usize = 0;
    proof {
        assert(views_of(parts@).subrange(0, 0) =~= Seq::<Seq<char>>::empty());
    }
    while i < parts.len()
        invariant
            i <= parts@.len(),
            out@ == spec_join(views_of(parts@).subrange(0, i as int), sep@),
        decreases parts@.len() - i,
    {
        if i > 0 {
            out.append(sep);
        }
        out.append(parts[i].as_str());
        proof {
            let vs = views_of(parts@);
            let post = vs.subrange(0, i + 1);
            assert(post.drop_last() =~= vs.subrange(0, i as int));
            assert(post.last() == vs[i as int]);
            if i == 0 {
                assert(out@ =~= post[0]);
            }
        }
        i += 1;
    }
    proof {
        assert(views_of(parts@).subrange(0, parts@.len() as int) =~= views_of(parts@));
    }
    out
}

} // verus!
