//! Text primitives over sequences of characters.
//!
//! Every routine here is specified against a mathematical description of
//! the text it handles (`Seq<char>`) and proved to compute exactly that.

use vstd::prelude::*;
use vstd::std_specs::iter::IteratorSpec;
use vstd::string::StrSliceExecFns;

verus! {

/// Whether `c` is whitespace: one of the characters that Unicode marks
/// `White_Space`.
pub open spec fn is_space(c: char) -> bool {
    let u = c as u32;
    ||| 0x09 <= u <= 0x0D
    ||| u == 0x20
    ||| u == 0x85
    ||| u == 0xA0
    ||| u == 0x1680
    ||| 0x2000 <= u <= 0x200A
    ||| u == 0x2028
    ||| u == 0x2029
    ||| u == 0x202F
    ||| u == 0x205F
    ||| u == 0x3000
}

/// Whether `needle` occurs in `hay` starting at position `at`.
pub open spec fn occurs_at(hay: Seq<char>, needle: Seq<char>, at: int) -> bool {
    &&& 0 <= at
    &&& at + needle.len() <= hay.len()
    &&& hay.subrange(at, at + needle.len()) == needle
}

/// Whether `text` begins with `prefix`.
pub open spec fn has_prefix(text: Seq<char>, prefix: Seq<char>) -> bool {
    occurs_at(text, prefix, 0)
}

/// Whether `needle` occurs somewhere in `hay`.
pub open spec fn has_infix(hay: Seq<char>, needle: Seq<char>) -> bool {
    exists|at: int| occurs_at(hay, needle, at)
}

/// `s` without its leading whitespace.
pub open spec fn trimmed_start(s: Seq<char>) -> Seq<char>
    decreases s.len(),
{
    if s.len() > 0 && is_space(s.first()) {
        trimmed_start(s.drop_first())
    } else {
        s
    }
}

/// `s` without its trailing whitespace.
pub open spec fn trimmed_end(s: Seq<char>) -> Seq<char>
    decreases s.len(),
{
    if s.len() > 0 && is_space(s.last()) {
        trimmed_end(s.drop_last())
    } else {
        s
    }
}

/// `s` without leading and trailing whitespace.
pub open spec fn trimmed(s: Seq<char>) -> Seq<char> {
    trimmed_end(trimmed_start(s))
}

/// Number of characters of `s` before its first whitespace character.
pub open spec fn word_len(s: Seq<char>) -> nat
    decreases s.len(),
{
    if s.len() == 0 || is_space(s.first()) {
        0
    } else {
        1 + word_len(s.drop_first())
    }
}

/// The maximal whitespace-free pieces of `s`, in order.
pub open spec fn words_of(s: Seq<char>) -> Seq<Seq<char>>
    decreases s.len(),
    via words_of_terminates
{
    if s.len() == 0 {
        Seq::empty()
    } else if is_space(s.first()) {
        words_of(s.drop_first())
    } else {
        let n = word_len(s) as int;
        seq![s.take(n)] + words_of(s.skip(n))
    }
}

/// Number of characters of `s` before the first occurrence of `stop`, or
/// the length of `s` where `stop` does not occur.
pub open spec fn span_before(s: Seq<char>, stop: char) -> nat
    decreases s.len(),
{
    if s.len() == 0 || s.first() == stop {
        0
    } else {
        1 + span_before(s.drop_first(), stop)
    }
}

/// Number of characters of `s` before its first line feed.
pub open spec fn line_len(s: Seq<char>) -> nat {
    span_before(s, '\n')
}

/// `line` without one trailing carriage return.
pub open spec fn without_cr(line: Seq<char>) -> Seq<char> {
    if line.len() > 0 && line.last() == '\r' {
        line.drop_last()
    } else {
        line
    }
}

/// The lines of `s`. A line ends at a line feed, or at a carriage return
/// directly followed by one; the terminator is not part of the line, and
/// the last line needs none.
pub open spec fn lines_of(s: Seq<char>) -> Seq<Seq<char>>
    decreases s.len(),
    via lines_of_terminates
{
    if s.len() == 0 {
        Seq::empty()
    } else {
        let n = line_len(s) as int;
        if n == s.len() {
            seq![s]
        } else {
            seq![without_cr(s.take(n))] + lines_of(s.skip(n + 1))
        }
    }
}

#[via_fn]
proof fn words_of_terminates(s: Seq<char>) {
    lemma_word_len_bound(s);
}

#[via_fn]
proof fn lines_of_terminates(s: Seq<char>) {
    lemma_span_before_bound(s, '\n');
}

/// The texts held by a sequence of strings.
pub open spec fn texts(v: Seq<String>) -> Seq<Seq<char>> {
    v.map_values(|s: String| s@)
}

/// The texts held by a sequence of string slices.
pub open spec fn slice_texts(v: Seq<&str>) -> Seq<Seq<char>> {
    v.map_values(|s: &str| s@)
}

/// The first word ends within the text, holds no whitespace, and is
/// followed by whitespace where anything follows.
pub proof fn lemma_word_len_bound(s: Seq<char>)
    ensures
        word_len(s) <= s.len(),
        forall|k: int| 0 <= k < word_len(s) ==> !is_space(#[trigger] s[k]),
        word_len(s) < s.len() ==> is_space(s[word_len(s) as int]),
    decreases s.len(),
{
    if s.len() == 0 || is_space(s.first()) {
    } else {
        let rest = s.drop_first();
        lemma_word_len_bound(rest);
        assert forall|k: int| 0 <= k < word_len(s) implies !is_space(#[trigger] s[k]) by {
            if k > 0 {
                assert(s[k] == rest[k - 1]);
            }
        }
        if word_len(s) < s.len() {
            assert(s[word_len(s) as int] == rest[word_len(rest) as int]);
        }
    }
}

/// A run of `n` non-whitespace characters that is followed by whitespace
/// or by the end of the text is the first word.
pub proof fn lemma_word_len_is(s: Seq<char>, n: int)
    requires
        0 <= n <= s.len(),
        forall|k: int| 0 <= k < n ==> !is_space(#[trigger] s[k]),
        n < s.len() ==> is_space(s[n]),
    ensures
        word_len(s) == n,
    decreases s.len(),
{
    if n == 0 {
    } else {
        let rest = s.drop_first();
        assert(!is_space(s[0]));
        assert forall|k: int| 0 <= k < n - 1 implies !is_space(#[trigger] rest[k]) by {
            assert(rest[k] == s[k + 1]);
        }
        if n - 1 < rest.len() {
            assert(rest[n - 1] == s[n]);
        }
        lemma_word_len_is(rest, n - 1);
    }
}

/// The span before `stop` ends within the text, holds no `stop`, and is
/// followed by `stop` where anything follows; it is shorter than the text
/// exactly where `stop` occurs.
pub proof fn lemma_span_before_bound(s: Seq<char>, stop: char)
    ensures
        span_before(s, stop) <= s.len(),
        forall|k: int| 0 <= k < span_before(s, stop) ==> #[trigger] s[k] != stop,
        span_before(s, stop) < s.len() ==> s[span_before(s, stop) as int] == stop,
        span_before(s, stop) < s.len() <==> s.contains(stop),
    decreases s.len(),
{
    if s.len() == 0 {
    } else if s.first() == stop {
        assert(s[0] == stop);
    } else {
        let rest = s.drop_first();
        lemma_span_before_bound(rest, stop);
        assert forall|k: int| 0 <= k < span_before(s, stop) implies #[trigger] s[k] != stop by {
            if k > 0 {
                assert(s[k] == rest[k - 1]);
            }
        }
        if span_before(s, stop) < s.len() {
            assert(s[span_before(s, stop) as int] == rest[span_before(rest, stop) as int]);
        }
        if s.contains(stop) {
            let k = choose|k: int| 0 <= k < s.len() && s[k] == stop;
            assert(rest[k - 1] == stop);
        }
    }
}

/// A run of `n` characters other than `stop` that is followed by `stop` or
/// by the end of the text is the span before `stop`.
pub proof fn lemma_span_before_is(s: Seq<char>, stop: char, n: int)
    requires
        0 <= n <= s.len(),
        forall|k: int| 0 <= k < n ==> #[trigger] s[k] != stop,
        n < s.len() ==> s[n] == stop,
    ensures
        span_before(s, stop) == n,
    decreases s.len(),
{
    if n == 0 {
    } else {
        let rest = s.drop_first();
        assert(s[0] != stop);
        assert forall|k: int| 0 <= k < n - 1 implies #[trigger] rest[k] != stop by {
            assert(rest[k] == s[k + 1]);
        }
        if n - 1 < rest.len() {
            assert(rest[n - 1] == s[n]);
        }
        lemma_span_before_is(rest, stop, n - 1);
    }
}

/// Whether `word` is non-empty and free of whitespace.
pub open spec fn is_solid(word: Seq<char>) -> bool {
    &&& word.len() > 0
    &&& forall|k: int| 0 <= k < word.len() ==> !is_space(#[trigger] word[k])
}

/// Every word is non-empty and free of whitespace.
pub proof fn lemma_words_are_solid(s: Seq<char>)
    ensures
        forall|i: int| 0 <= i < words_of(s).len() ==> is_solid(#[trigger] words_of(s)[i]),
    decreases s.len(),
{
    if s.len() == 0 {
        assert(words_of(s).len() == 0);
    } else if is_space(s.first()) {
        lemma_words_are_solid(s.drop_first());
        assert(words_of(s) == words_of(s.drop_first()));
    } else {
        let n = word_len(s) as int;
        lemma_word_len_bound(s);
        lemma_words_are_solid(s.skip(n));
        let word = s.take(n);
        let rest = words_of(s.skip(n));
        assert(words_of(s) == seq![word] + rest);
        assert(is_solid(word)) by {
            assert forall|k: int| 0 <= k < word.len() implies !is_space(#[trigger] word[k]) by {
                assert(word[k] == s[k]);
            }
        }
        assert forall|i: int| 0 <= i < words_of(s).len() implies is_solid(
            #[trigger] words_of(s)[i],
        ) by {
            if i > 0 {
                assert(words_of(s)[i] == rest[i - 1]);
            }
        }
    }
}

/// The characters of `s`, in order.
pub fn chars_of(s: &str) -> (v: Vec<char>)
    ensures
        v@ == s@,
{
    broadcast use vstd::string::group_string_axioms;

    let mut v: Vec<char> = Vec::new();
    for c in it: s.chars()
        invariant
            it.seq() == s@,
            v@ == s@.take(it.index() as int),
    {
        v.push(c);
    }
    v
}

/// Tells whether `c` is Unicode whitespace.
pub fn is_whitespace(c: char) -> (r: bool)
    ensures
        r == is_space(c),
{
    let u: u32 = c as u32;
    (0x09 <= u && u <= 0x0D) || u == 0x20 || u == 0x85 || u == 0xA0 || u == 0x1680 || (0x2000 <= u
        && u <= 0x200A) || u == 0x2028 || u == 0x2029 || u == 0x202F || u == 0x205F || u == 0x3000
}

/// Tells whether `needle` occurs in `hay` at position `at`.
pub fn matches_at(hay: &Vec<char>, needle: &Vec<char>, at: usize) -> (r: bool)
    ensures
        r == occurs_at(hay@, needle@, at as int),
{
    let n = needle.len();
    if at > hay.len() || n > hay.len() - at {
        return false;
    }
    let mut k: usize = 0;
    while k < n
        invariant
            k <= n,
            n == needle.len(),
            at + n <= hay.len(),
            forall|j: int| 0 <= j < k ==> hay@[at + j] == needle@[j],
        decreases n - k,
    {
        if hay[at + k] != needle[k] {
            proof {
                let window = hay@.subrange(at as int, at + n);
                assert(window[k as int] == hay@[at + k]);
            }
            return false;
        }
        k += 1;
    }
    assert(hay@.subrange(at as int, at + n) =~= needle@);
    true
}

/// Tells whether the characters `text` begin with those of `prefix`.
pub fn chars_start_with(text: &Vec<char>, prefix: &Vec<char>) -> (r: bool)
    ensures
        r == has_prefix(text@, prefix@),
{
    matches_at(text, prefix, 0)
}

/// Tells whether the characters `text` begin with the first `n` of `other`.
pub fn chars_share_prefix(text: &Vec<char>, other: &Vec<char>, n: usize) -> (r: bool)
    requires
        n <= other.len(),
    ensures
        r == has_prefix(text@, other@.take(n as int)),
{
    if n > text.len() {
        return false;
    }
    let ghost prefix = other@.take(n as int);
    let mut k: usize = 0;
    while k < n
        invariant
            k <= n,
            n <= text.len(),
            n <= other.len(),
            prefix == other@.take(n as int),
            forall|j: int| 0 <= j < k ==> text@[j] == other@[j],
        decreases n - k,
    {
        if text[k] != other[k] {
            proof {
                let window = text@.subrange(0, n as int);
                assert(window[k as int] == text@[k as int]);
                assert(prefix[k as int] == other@[k as int]);
            }
            return false;
        }
        k += 1;
    }
    assert(text@.subrange(0, n as int) =~= prefix);
    true
}

/// Tells whether the characters `needle` occur somewhere in `hay`.
pub fn chars_contain(hay: &Vec<char>, needle: &Vec<char>) -> (r: bool)
    ensures
        r == has_infix(hay@, needle@),
{
    let n = needle.len();
    if n > hay.len() {
        return false;
    }
    if n == 0 {
        assert(hay@.subrange(0, 0) =~= needle@);
        assert(occurs_at(hay@, needle@, 0));
        return true;
    }
    let last: usize = hay.len() - n;
    let mut at: usize = 0;
    while at <= last
        invariant
            at <= last + 1,
            last + n == hay.len(),
            n == needle.len(),
            n > 0,
            forall|j: int| 0 <= j < at ==> !occurs_at(hay@, needle@, j),
        decreases last + 1 - at,
    {
        if matches_at(hay, needle, at) {
            return true;
        }
        at += 1;
    }
    false
}

/// Tells whether `text` begins with `prefix`.
pub fn starts_with(text: &str, prefix: &str) -> (r: bool)
    ensures
        r == has_prefix(text@, prefix@),
{
    let t = chars_of(text);
    let p = chars_of(prefix);
    chars_start_with(&t, &p)
}

/// Tells whether `needle` occurs somewhere in `hay`.
pub fn contains(hay: &str, needle: &str) -> (r: bool)
    ensures
        r == has_infix(hay@, needle@),
{
    let h = chars_of(hay);
    let n = chars_of(needle);
    chars_contain(&h, &n)
}

/// Tells whether `a` and `b` hold the same text.
pub fn same_text(a: &str, b: &str) -> (r: bool)
    ensures
        r == (a@ == b@),
{
    let x = chars_of(a);
    let y = chars_of(b);
    if x.len() != y.len() {
        return false;
    }
    let r = matches_at(&x, &y, 0);
    proof {
        assert(x@.subrange(0, x@.len() as int) =~= x@);
    }
    r
}

/// `s` without leading and trailing whitespace.
pub fn trim(s: &str) -> (r: &str)
    ensures
        r@ == trimmed(s@),
{
    let chars = chars_of(s);
    let n = chars.len();
    let mut a: usize = 0;
    assert(chars@.skip(0) =~= chars@);
    while a < n && is_whitespace(chars[a])
        invariant
            a <= n,
            n == chars.len(),
            trimmed_start(chars@) == trimmed_start(chars@.skip(a as int)),
        decreases n - a,
    {
        proof {
            let rest = chars@.skip(a as int);
            assert(rest.first() == chars@[a as int]);
            assert(rest.drop_first() =~= chars@.skip(a + 1));
        }
        a += 1;
    }
    proof {
        let rest = chars@.skip(a as int);
        if a < n {
            assert(rest.first() == chars@[a as int]);
        }
        assert(trimmed_start(chars@) == rest);
        assert(rest =~= chars@.subrange(a as int, n as int));
    }
    let mut b: usize = n;
    while b > a && is_whitespace(chars[b - 1])
        invariant
            a <= b <= n,
            n == chars.len(),
            trimmed(chars@) == trimmed_end(chars@.subrange(a as int, b as int)),
        decreases b,
    {
        proof {
            let part = chars@.subrange(a as int, b as int);
            assert(part.last() == chars@[b - 1]);
            assert(part.drop_last() =~= chars@.subrange(a as int, b - 1));
        }
        b -= 1;
    }
    proof {
        let part = chars@.subrange(a as int, b as int);
        if b > a {
            assert(part.last() == chars@[b - 1]);
        }
        assert(trimmed_end(part) == part);
    }
    s.substring_char(a, b)
}

/// The whitespace-separated words of `s`, in order.
pub fn split_whitespace(s: &str) -> (words: Vec<String>)
    ensures
        texts(words@) == words_of(s@),
{
    let chars = chars_of(s);
    let n = chars.len();
    let mut words: Vec<String> = Vec::new();
    let mut i: usize = 0;
    assert(chars@.skip(0) =~= chars@);
    assert(texts(words@) + words_of(chars@) =~= words_of(chars@));
    while i < n
        invariant
            i <= n,
            n == chars.len(),
            chars@ == s@,
            texts(words@) + words_of(chars@.skip(i as int)) == words_of(chars@),
        decreases n - i,
    {
        let ghost tail = chars@.skip(i as int);
        assert(tail.first() == chars@[i as int]);
        if is_whitespace(chars[i]) {
            assert(tail.drop_first() =~= chars@.skip(i + 1));
            assert(words_of(tail) == words_of(tail.drop_first()));
            i += 1;
        } else {
            let start = i;
            while i < n && !is_whitespace(chars[i])
                invariant
                    start <= i <= n,
                    n == chars.len(),
                    forall|k: int| start <= k < i ==> !is_space(#[trigger] chars@[k]),
                decreases n - i,
            {
                i += 1;
            }
            let word = s.substring_char(start, i).to_owned();
            proof {
                let len = i - start;
                assert forall|k: int| 0 <= k < len implies !is_space(#[trigger] tail[k]) by {
                    assert(tail[k] == chars@[start + k]);
                }
                if len < tail.len() {
                    assert(tail[len] == chars@[i as int]);
                }
                lemma_word_len_is(tail, len);
                assert(tail.take(len) =~= chars@.subrange(start as int, i as int));
                assert(tail.skip(len) =~= chars@.skip(i as int));
                assert(words_of(tail) == seq![tail.take(len)] + words_of(tail.skip(len)));
                assert(texts(words@.push(word)) =~= texts(words@).push(word@));
                assert(texts(words@).push(word@) + words_of(chars@.skip(i as int)) =~= texts(
                    words@,
                ) + words_of(tail));
            }
            words.push(word);
        }
    }
    assert(words_of(chars@.skip(n as int)) =~= Seq::<Seq<char>>::empty());
    assert(texts(words@) + Seq::<Seq<char>>::empty() =~= texts(words@));
    words
}

/// The lines of `s`, in order, each without its terminator.
pub fn lines<'a>(s: &'a str) -> (found: Vec<&'a str>)
    ensures
        slice_texts(found@) == lines_of(s@),
{
    let chars = chars_of(s);
    let n = chars.len();
    let mut found: Vec<&'a str> = Vec::new();
    let mut i: usize = 0;
    assert(chars@.skip(0) =~= chars@);
    assert(slice_texts(found@) + lines_of(chars@) =~= lines_of(chars@));
    while i < n
        invariant
            i <= n,
            n == chars.len(),
            chars@ == s@,
            slice_texts(found@) + lines_of(chars@.skip(i as int)) == lines_of(chars@),
        decreases n - i,
    {
        let ghost tail = chars@.skip(i as int);
        let start = i;
        while i < n && chars[i] != '\n'
            invariant
                start <= i <= n,
                n == chars.len(),
                forall|k: int| start <= k < i ==> #[trigger] chars@[k] != '\n',
            decreases n - i,
        {
            i += 1;
        }
        let ghost len = i - start;
        proof {
            assert forall|k: int| 0 <= k < len implies #[trigger] tail[k] != '\n' by {
                assert(tail[k] == chars@[start + k]);
            }
            if len < tail.len() {
                assert(tail[len] == chars@[i as int]);
            }
            lemma_span_before_is(tail, '\n', len);
            assert(tail.take(len) =~= chars@.subrange(start as int, i as int));
        }
        if i == n {
            let line = s.substring_char(start, n);
            proof {
                assert(tail =~= chars@.subrange(start as int, n as int));
                assert(lines_of(tail) == seq![tail]);
                assert(slice_texts(found@.push(line)) =~= slice_texts(found@).push(line@));
                assert(lines_of(chars@.skip(n as int)) =~= Seq::<Seq<char>>::empty());
                assert(slice_texts(found@).push(line@) + lines_of(chars@.skip(n as int))
                    =~= slice_texts(found@) + lines_of(tail));
            }
            found.push(line);
        } else {
            let end = if i > start && chars[i - 1] == '\r' {
                i - 1
            } else {
                i
            };
            let line = s.substring_char(start, end);
            proof {
                let raw = tail.take(len);
                if len > 0 {
                    assert(raw.last() == chars@[i - 1]);
                }
                assert(without_cr(raw) =~= chars@.subrange(start as int, end as int));
                assert(tail.skip(len + 1) =~= chars@.skip(i + 1));
                assert(lines_of(tail) == seq![without_cr(raw)] + lines_of(tail.skip(len + 1)));
                assert(slice_texts(found@.push(line)) =~= slice_texts(found@).push(line@));
                assert(slice_texts(found@).push(line@) + lines_of(chars@.skip(i + 1))
                    =~= slice_texts(found@) + lines_of(tail));
            }
            found.push(line);
            i += 1;
        }
    }
    assert(lines_of(chars@.skip(n as int)) =~= Seq::<Seq<char>>::empty());
    assert(slice_texts(found@) + Seq::<Seq<char>>::empty() =~= slice_texts(found@));
    found
}

/// Tells whether one of `names` holds the text `name`.
pub fn holds_name(names: &Vec<String>, name: &str) -> (r: bool)
    ensures
        r == texts(names@).contains(name@),
{
    let mut i: usize = 0;
    while i < names.len()
        invariant
            i <= names.len(),
            forall|j: int| 0 <= j < i ==> #[trigger] texts(names@)[j] != name@,
        decreases names.len() - i,
    {
        assert(texts(names@)[i as int] == names@[i as int]@);
        if same_text(names[i].as_str(), name) {
            return true;
        }
        i += 1;
    }
    false
}

} // verus!
