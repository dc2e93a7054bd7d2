//! Characters and character sequences: the classes of characters the rest of
//! the library tells apart, and searching, trimming and splitting of text.

use vstd::prelude::*;

verus! {

/// The characters with the Unicode property `White_Space`.
pub open spec fn is_whitespace(c: char) -> bool {
    let u = c as u32;
    ||| 0x0009 <= u <= 0x000D
    ||| u == 0x0020
    ||| u == 0x0085
    ||| u == 0x00A0
    ||| u == 0x1680
    ||| 0x2000 <= u <= 0x200A
    ||| u == 0x2028
    ||| u == 0x2029
    ||| u == 0x202F
    ||| u == 0x205F
    ||| u == 0x3000
}

/// Tests a character for the Unicode property `White_Space`.
pub fn char_is_whitespace(c: char) -> (b: bool)
    ensures
        b == is_whitespace(c),
{
    let u: u32 = c as u32;
    (0x0009 <= u && u <= 0x000D) || u == 0x0020 || u == 0x0085 || u == 0x00A0 || u == 0x1680 || (
    0x2000 <= u && u <= 0x200A) || u == 0x2028 || u == 0x2029 || u == 0x202F || u == 0x205F || u
        == 0x3000
}

/// Whether `char::is_alphanumeric` holds of a character: it is a letter or a
/// number in the sense of the Unicode tables that the standard library carries.
pub uninterp spec fn char_is_alphanumeric(c: char) -> bool;

/// `char::is_alphanumeric` of the standard library, taken on trust. It
/// decides by tables of Unicode that are too long to restate; the contract
/// claims only that its answer depends on the character alone, and gives
/// that answer the name `char_is_alphanumeric`.
pub assume_specification[ char::is_alphanumeric ](c: char) -> (b: bool)
    ensures
        b == char_is_alphanumeric(c),
;

/// `String::push` of the standard library, taken on trust: the contract
/// claims that it appends the character to the end of the string and
/// changes nothing else.
pub assume_specification[ String::push ](s: &mut String, c: char)
    ensures
        final(s)@ == old(s)@.push(c),
;

/// The characters of a string slice, in order.
pub fn chars_of(s: &str) -> (v: Vec<char>)
    ensures
        v@ == s@,
{
    let mut v: Vec<char> = Vec::new();
    for c in it: s.chars()
        invariant
            it.seq() == s@,
            v@ =~= s@.take(it.index()),
    {
        v.push(c);
    }
    assert(s@.take(s@.len() as int) =~= s@);
    v
}

/// The string made of the given characters, in order.
pub fn string_of(v: &Vec<char>) -> (s: String)
    ensures
        s@ == v@,
{
    let mut s = String::new();
    let mut i: usize = 0;
    while i < v.len()
        invariant
            i <= v.len(),
            s@ =~= v@.take(i as int),
        decreases v.len() - i,
    {
        s.push(v[i]);
        i = i + 1;
    }
    assert(v@.take(v@.len() as int) =~= v@);
    s
}

/// Tests whether two strings hold the same characters.
pub fn same_text(a: &str, b: &str) -> (r: bool)
    ensures
        r == (a@ == b@),
{
    let x = chars_of(a);
    let y = chars_of(b);
    if x.len() != y.len() {
        return false;
    }
    let mut i: usize = 0;
    while i < x.len()
        invariant
            i <= x.len(),
            x.len() == y.len(),
            x@ == a@,
            y@ == b@,
            forall|k: int| 0 <= k < i ==> x@[k] == y@[k],
        decreases x.len() - i,
    {
        if x[i] != y[i] {
            return false;
        }
        i = i + 1;
    }
    assert(x@ =~= y@);
    true
}

/// `needle` stands in `hay` at position `i`.
pub open spec fn occurs_at(hay: Seq<char>, needle: Seq<char>, i: int) -> bool {
    &&& 0 <= i
    &&& i + needle.len() <= hay.len()
    &&& hay.subrange(i, i + needle.len()) == needle
}

/// `needle` stands somewhere in `hay`. The empty text stands in every text.
#[verifier::opaque]
pub open spec fn contains_text(hay: Seq<char>, needle: Seq<char>) -> bool {
    exists|i: int| occurs_at(hay, needle, i)
}

/// `s` ends with `suffix`.
pub open spec fn ends_with_text(s: Seq<char>, suffix: Seq<char>) -> bool {
    occurs_at(s, suffix, s.len() - suffix.len())
}

/// Tests whether `needle` stands in `hay` at position `i`.
pub fn matches_at(hay: &Vec<char>, needle: &Vec<char>, i: usize) -> (b: bool)
    ensures
        b == occurs_at(hay@, needle@, i as int),
{
    if i > hay.len() || needle.len() > hay.len() - i {
        return false;
    }
    let mut j: usize = 0;
    while j < needle.len()
        invariant
            j <= needle.len(),
            i + needle.len() <= hay.len(),
            forall|k: int| 0 <= k < j ==> hay@[i + k] == needle@[k],
        decreases needle.len() - j,
    {
        if hay[i + j] != needle[j] {
            assert(hay@.subrange(i as int, i + needle.len())[j as int] != needle@[j as int]);
            return false;
        }
        j = j + 1;
    }
    assert(hay@.subrange(i as int, i + needle.len()) =~= needle@);
    true
}

/// Tests whether `needle` stands somewhere in `hay`.
pub fn contains(hay: &Vec<char>, needle: &Vec<char>) -> (b: bool)
    ensures
        b == contains_text(hay@, needle@),
{
    reveal(contains_text);
    if needle.len() > hay.len() {
        return false;
    }
    if needle.len() == 0 {
        assert(hay@.subrange(0, 0) =~= needle@);
        assert(occurs_at(hay@, needle@, 0));
        return true;
    }
    let last: usize = hay.len() - needle.len();
    let mut i: usize = 0;
    while i <= last
        invariant
            last == hay.len() - needle.len(),
            0 < needle.len() <= hay.len(),
            i <= last + 1,
            forall|k: int| 0 <= k < i ==> !occurs_at(hay@, needle@, k),
        decreases last + 1 - i,
    {
        if matches_at(hay, needle, i) {
            proof {
                reveal(contains_text);
            }
            return true;
        }
        i = i + 1;
    }
    false
}

/// Tests whether `s` ends with `suffix`.
pub fn ends_with(s: &Vec<char>, suffix: &Vec<char>) -> (b: bool)
    ensures
        b == ends_with_text(s@, suffix@),
{
    if suffix.len() > s.len() {
        return false;
    }
    matches_at(s, suffix, s.len() - suffix.len())
}

/// `s` without the whitespace it begins with.
pub open spec fn trim_start_text(s: Seq<char>) -> Seq<char>
    decreases s.len(),
{
    if s.len() > 0 && is_whitespace(s[0]) {
        trim_start_text(s.drop_first())
    } else {
        s
    }
}

/// `s` without the whitespace it ends with.
pub open spec fn trim_end_text(s: Seq<char>) -> Seq<char>
    decreases s.len(),
{
    if s.len() > 0 && is_whitespace(s.last()) {
        trim_end_text(s.drop_last())
    } else {
        s
    }
}

/// `s` without the whitespace around it.
pub open spec fn trim_text(s: Seq<char>) -> Seq<char> {
    trim_end_text(trim_start_text(s))
}

/// Where the first `k` characters are whitespace and the next one, if any,
/// is not, trimming the start drops exactly those `k`.
pub proof fn lemma_trim_start(s: Seq<char>, k: int)
    requires
        0 <= k <= s.len(),
        forall|i: int| 0 <= i < k ==> is_whitespace(s[i]),
        k < s.len() ==> !is_whitespace(s[k]),
    ensures
        trim_start_text(s) == s.skip(k),
    decreases k,
{
    if k == 0 {
        assert(s.skip(0) =~= s);
    } else {
        lemma_trim_start(s.drop_first(), k - 1);
        assert(s.drop_first().skip(k - 1) =~= s.skip(k));
    }
}

/// Where the characters from `k` on are whitespace and the one before, if
/// any, is not, trimming the end keeps exactly the first `k`.
pub proof fn lemma_trim_end(s: Seq<char>, k: int)
    requires
        0 <= k <= s.len(),
        forall|i: int| k <= i < s.len() ==> is_whitespace(s[i]),
        k > 0 ==> !is_whitespace(s[k - 1]),
    ensures
        trim_end_text(s) == s.take(k),
    decreases s.len() - k,
{
    if k == s.len() {
        assert(s.take(k) =~= s);
    } else {
        lemma_trim_end(s.drop_last(), k);
        assert(s.drop_last().take(k) =~= s.take(k));
    }
}

/// A trimmed text neither begins nor ends with whitespace.
pub proof fn lemma_trim_text_edges(s: Seq<char>)
    ensures
        trim_text(s).len() > 0 ==> !is_whitespace(trim_text(s)[0]) && !is_whitespace(
            trim_text(s).last(),
        ),
        trim_text(s).len() <= s.len(),
{
    lemma_trim_start_shape(s);
    lemma_trim_end_shape(trim_start_text(s));
}

/// What trimming the start leaves is an end piece of the text that does not
/// begin with whitespace.
pub proof fn lemma_trim_start_shape(s: Seq<char>)
    ensures
        trim_start_text(s).len() <= s.len(),
        trim_start_text(s) == s.skip(s.len() - trim_start_text(s).len()),
        trim_start_text(s).len() > 0 ==> !is_whitespace(trim_start_text(s)[0]),
        forall|i: int| 0 <= i < s.len() - trim_start_text(s).len() ==> is_whitespace(s[i]),
    decreases s.len(),
{
    if s.len() > 0 && is_whitespace(s[0]) {
        let t = s.drop_first();
        lemma_trim_start_shape(t);
        let r = trim_start_text(t);
        assert(t.skip(t.len() - r.len()) =~= s.skip(s.len() - r.len()));
        assert forall|i: int| 0 <= i < s.len() - r.len() implies is_whitespace(s[i]) by {
            if i > 0 {
                assert(s[i] == t[i - 1]);
            }
        }
    } else {
        assert(s.skip(0) =~= s);
    }
}

/// What trimming the end leaves is a start piece of the text that does not
/// end with whitespace, and it begins as the text does.
pub proof fn lemma_trim_end_shape(s: Seq<char>)
    ensures
        trim_end_text(s).len() <= s.len(),
        trim_end_text(s) == s.take(trim_end_text(s).len() as int),
        trim_end_text(s).len() > 0 ==> !is_whitespace(trim_end_text(s).last()),
        forall|i: int| trim_end_text(s).len() <= i < s.len() ==> is_whitespace(s[i]),
    decreases s.len(),
{
    if s.len() > 0 && is_whitespace(s.last()) {
        let t = s.drop_last();
        lemma_trim_end_shape(t);
        let r = trim_end_text(t);
        assert(t.take(r.len() as int) =~= s.take(r.len() as int));
        assert forall|i: int| r.len() <= i < s.len() implies is_whitespace(s[i]) by {
            if i < t.len() {
                assert(s[i] == t[i]);
            }
        }
    } else {
        assert(s.take(s.len() as int) =~= s);
    }
}

/// A copy of `s` without the whitespace around it.
pub fn trim(s: &Vec<char>) -> (r: Vec<char>)
    ensures
        r@ == trim_text(s@),
{
    let mut start: usize = 0;
    while start < s.len() && char_is_whitespace(s[start])
        invariant
            start <= s.len(),
            forall|i: int| 0 <= i < start ==> is_whitespace(s@[i]),
        decreases s.len() - start,
    {
        start = start + 1;
    }
    let mut end: usize = s.len();
    while end > start && char_is_whitespace(s[end - 1])
        invariant
            start <= end <= s.len(),
            forall|i: int| end <= i < s.len() ==> is_whitespace(s@[i]),
        decreases end,
    {
        end = end - 1;
    }
    let mut r: Vec<char> = Vec::new();
    let mut i: usize = start;
    while i < end
        invariant
            start <= i <= end <= s.len(),
            r@ =~= s@.subrange(start as int, i as int),
        decreases end - i,
    {
        r.push(s[i]);
        i = i + 1;
    }
    proof {
        lemma_trim_start(s@, start as int);
        let t = s@.skip(start as int);
        assert forall|i: int| end - start <= i < t.len() implies is_whitespace(t[i]) by {
            assert(t[i] == s@[i + start]);
        }
        if end > start {
            assert(t[end - start - 1] == s@[end - 1]);
        }
        lemma_trim_end(t, end - start);
        assert(t.take(end - start) =~= s@.subrange(start as int, end as int));
    }
    r
}

/// The texts that a list of character vectors holds.
pub open spec fn texts(v: Seq<Vec<char>>) -> Seq<Seq<char>> {
    Seq::new(v.len(), |i: int| v[i]@)
}

/// The texts that a list of strings holds.
pub open spec fn string_texts(v: Seq<String>) -> Seq<Seq<char>> {
    Seq::new(v.len(), |i: int| v[i]@)
}

/// The words of a text: its longest runs of characters other than
/// whitespace, in the order in which they stand.
pub open spec fn tokens(s: Seq<char>) -> Seq<Seq<char>>
    decreases s.len(),
{
    if s.len() == 0 {
        Seq::empty()
    } else {
        let before = tokens(s.drop_last());
        let c = s.last();
        if is_whitespace(c) {
            before
        } else if s.len() >= 2 && !is_whitespace(s[s.len() - 2]) {
            before.drop_last().push(before.last().push(c))
        } else {
            before.push(seq![c])
        }
    }
}

/// A text that ends in a character other than whitespace has a last word,
/// and that word is not empty.
pub proof fn lemma_tokens_open_word(s: Seq<char>)
    requires
        s.len() > 0,
        !is_whitespace(s.last()),
    ensures
        tokens(s).len() > 0,
        tokens(s).last().len() > 0,
    decreases s.len(),
{
    if s.len() >= 2 && !is_whitespace(s[s.len() - 2]) {
        lemma_tokens_open_word(s.drop_last());
    }
}

/// Splits a text into its words.
pub fn split_whitespace(s: &Vec<char>) -> (r: Vec<Vec<char>>)
    ensures
        texts(r@) == tokens(s@),
{
    let mut done: Vec<Vec<char>> = Vec::new();
    let mut word: Vec<char> = Vec::new();
    let mut i: usize = 0;
    assert(texts(done@) =~= tokens(s@.take(0)));
    while i < s.len()
        invariant
            i <= s.len(),
            word@.len() > 0 <==> (i > 0 && !is_whitespace(s@[i - 1])),
            tokens(s@.take(i as int)) == if word@.len() > 0 {
                texts(done@).push(word@)
            } else {
                texts(done@)
            },
        decreases s.len() - i,
    {
        let c = s[i];
        let ghost before = s@.take(i as int);
        let ghost now = s@.take(i + 1);
        assert(now.drop_last() =~= before);
        assert(now.last() == c);
        if char_is_whitespace(c) {
            if word.len() > 0 {
                let ghost old_done = done@;
                done.push(word);
                assert(texts(done@) =~= texts(old_done).push(word@));
                word = Vec::new();
            }
        } else {
            proof {
                if i > 0 && !is_whitespace(s@[i - 1]) {
                    assert(now[now.len() - 2] == s@[i - 1]);
                    let t = texts(done@).push(word@);
                    assert(t.drop_last() =~= texts(done@));
                    assert(t.last() == word@);
                } else if i > 0 {
                    assert(now[now.len() - 2] == s@[i - 1]);
                }
            }
            let ghost old_word = word@;
            word.push(c);
            assert(old_word.len() == 0 ==> word@ =~= seq![c]);
        }
        i = i + 1;
    }
    assert(s@.take(s@.len() as int) =~= s@);
    if word.len() > 0 {
        let ghost old_done = done@;
        done.push(word);
        assert(texts(done@) =~= texts(old_done).push(word@));
    }
    done
}

/// The first of `words` that ends with `suffix`, if there is one.
pub open spec fn first_ending_with(words: Seq<Seq<char>>, suffix: Seq<char>) -> Option<Seq<char>>
    decreases words.len(),
{
    if words.len() == 0 {
        None
    } else if ends_with_text(words[0], suffix) {
        Some(words[0])
    } else {
        first_ending_with(words.drop_first(), suffix)
    }
}

/// Where none of the first `k` words ends with `suffix`, the search goes on
/// among the words from `k` on.
pub proof fn lemma_first_ending_with_skip(words: Seq<Seq<char>>, suffix: Seq<char>, k: int)
    requires
        0 <= k <= words.len(),
        forall|j: int| 0 <= j < k ==> !ends_with_text(#[trigger] words[j], suffix),
    ensures
        first_ending_with(words, suffix) == first_ending_with(words.skip(k), suffix),
    decreases k,
{
    if k == 0 {
        assert(words.skip(0) =~= words);
    } else {
        assert(!ends_with_text(words[0], suffix));
        let rest = words.drop_first();
        assert forall|j: int| 0 <= j < k - 1 implies !ends_with_text(
            #[trigger] rest[j],
            suffix,
        ) by {
            assert(rest[j] == words[j + 1]);
        }
        lemma_first_ending_with_skip(rest, suffix, k - 1);
        assert(rest.skip(k - 1) =~= words.skip(k));
    }
}

/// What the search finds is one of the words, and it ends with `suffix`.
pub proof fn lemma_first_ending_with_found(words: Seq<Seq<char>>, suffix: Seq<char>)
    requires
        first_ending_with(words, suffix) is Some,
    ensures
        ends_with_text(first_ending_with(words, suffix).unwrap(), suffix),
        words.contains(first_ending_with(words, suffix).unwrap()),
    decreases words.len(),
{
    if ends_with_text(words[0], suffix) {
    } else {
        let rest = words.drop_first();
        lemma_first_ending_with_found(rest, suffix);
        let w = first_ending_with(rest, suffix).unwrap();
        let k = choose|k: int| 0 <= k < rest.len() && rest[k] == w;
        assert(words[k + 1] == w);
    }
}

/// Finds the position of the first word that ends with `suffix`.
pub fn find_ending_with(words: &Vec<Vec<char>>, suffix: &Vec<char>) -> (r: Option<usize>)
    ensures
        match r {
            Some(k) => {
                &&& k < words.len()
                &&& ends_with_text(words@[k as int]@, suffix@)
                &&& forall|j: int| 0 <= j < k ==> !ends_with_text(#[trigger] words@[j]@, suffix@)
                &&& first_ending_with(texts(words@), suffix@) == Some(words@[k as int]@)
            },
            None => {
                &&& forall|j: int|
                    0 <= j < words.len() ==> !ends_with_text(#[trigger] words@[j]@, suffix@)
                &&& first_ending_with(texts(words@), suffix@) is None
            },
        },
{
    let mut k: usize = 0;
    while k < words.len()
        invariant
            k <= words.len(),
            forall|j: int| 0 <= j < k ==> !ends_with_text(#[trigger] texts(words@)[j], suffix@),
            forall|j: int| 0 <= j < k ==> !ends_with_text(#[trigger] words@[j]@, suffix@),
        decreases words.len() - k,
    {
        if ends_with(&words[k], suffix) {
            proof {
                lemma_first_ending_with_skip(texts(words@), suffix@, k as int);
                assert(texts(words@).skip(k as int)[0] == words@[k as int]@);
            }
            return Some(k);
        }
        assert(texts(words@)[k as int] == words@[k as int]@);
        k = k + 1;
    }
    proof {
        lemma_first_ending_with_skip(texts(words@), suffix@, k as int);
    }
    None
}

/// `s` without the run of the character `c` that it ends with.
pub open spec fn strip_trailing(s: Seq<char>, c: char) -> Seq<char>
    decreases s.len(),
{
    if s.len() > 0 && s.last() == c {
        strip_trailing(s.drop_last(), c)
    } else {
        s
    }
}

/// Where the characters from `k` on are all `c` and the one before, if any,
/// is not, stripping keeps exactly the first `k`.
pub proof fn lemma_strip_trailing(s: Seq<char>, c: char, k: int)
    requires
        0 <= k <= s.len(),
        forall|i: int| k <= i < s.len() ==> s[i] == c,
        k > 0 ==> s[k - 1] != c,
    ensures
        strip_trailing(s, c) == s.take(k),
    decreases s.len() - k,
{
    if k == s.len() {
        assert(s.take(k) =~= s);
    } else {
        lemma_strip_trailing(s.drop_last(), c, k);
        assert(s.drop_last().take(k) =~= s.take(k));
    }
}

/// A copy of `s` without the run of the character `c` that it ends with.
pub fn trim_end_matches(s: &Vec<char>, c: char) -> (r: Vec<char>)
    ensures
        r@ == strip_trailing(s@, c),
{
    let mut end: usize = s.len();
    while end > 0 && s[end - 1] == c
        invariant
            end <= s.len(),
            forall|i: int| end <= i < s.len() ==> s@[i] == c,
        decreases end,
    {
        end = end - 1;
    }
    let mut r: Vec<char> = Vec::new();
    let mut i: usize = 0;
    while i < end
        invariant
            i <= end <= s.len(),
            r@ =~= s@.take(i as int),
        decreases end - i,
    {
        r.push(s[i]);
        i = i + 1;
    }
    proof {
        lemma_strip_trailing(s@, c, end as int);
    }
    r
}

/// No character of the text is whitespace.
pub open spec fn free_of_whitespace(s: Seq<char>) -> bool {
    forall|i: int| 0 <= i < s.len() ==> !is_whitespace(#[trigger] s[i])
}

/// Every character of the text is whitespace.
pub open spec fn all_whitespace(s: Seq<char>) -> bool {
    forall|i: int| 0 <= i < s.len() ==> is_whitespace(#[trigger] s[i])
}

/// Where two texts meet at whitespace, or one of them is empty, the words
/// of the two together are the words of the first and then those of the second.
pub proof fn lemma_tokens_concat(a: Seq<char>, b: Seq<char>)
    requires
        a.len() == 0 || b.len() == 0 || is_whitespace(a.last()) || is_whitespace(b[0]),
    ensures
        tokens(a + b) == tokens(a) + tokens(b),
    decreases b.len(),
{
    if b.len() == 0 {
        assert(a + b =~= a);
        assert(tokens(a) + tokens(b) =~= tokens(a));
    } else {
        let whole = a + b;
        let shorter = b.drop_last();
        let c = b.last();
        assert(whole.drop_last() =~= a + shorter);
        assert(whole.last() == c);
        if shorter.len() > 0 {
            assert(shorter[0] == b[0]);
        }
        lemma_tokens_concat(a, shorter);
        let joined = tokens(a + shorter);
        if is_whitespace(c) {
        } else if b.len() >= 2 {
            assert(whole[whole.len() - 2] == b[b.len() - 2]);
            if !is_whitespace(b[b.len() - 2]) {
                assert(shorter.last() == b[b.len() - 2]);
                lemma_tokens_open_word(shorter);
                assert(joined.drop_last() =~= tokens(a) + tokens(shorter).drop_last());
                assert(joined.last() == tokens(shorter).last());
                assert(tokens(a + b) =~= tokens(a) + tokens(b));
            } else {
                assert(tokens(a + b) =~= tokens(a) + tokens(b));
            }
        } else {
            assert(shorter =~= Seq::<char>::empty());
            if a.len() > 0 {
                assert(whole[whole.len() - 2] == a.last());
            }
            assert(tokens(a + b) =~= tokens(a) + tokens(b));
        }
    }
}

/// A text of whitespace alone has no words.
pub proof fn lemma_tokens_of_whitespace(s: Seq<char>)
    requires
        all_whitespace(s),
    ensures
        tokens(s) == Seq::<Seq<char>>::empty(),
    decreases s.len(),
{
    if s.len() > 0 {
        let t = s.drop_last();
        assert forall|i: int| 0 <= i < t.len() implies is_whitespace(#[trigger] t[i]) by {
            assert(t[i] == s[i]);
        }
        lemma_tokens_of_whitespace(t);
        assert(is_whitespace(s[s.len() - 1]));
    }
}

/// A text without whitespace that is not empty is one word.
pub proof fn lemma_tokens_of_word(s: Seq<char>)
    requires
        s.len() > 0,
        free_of_whitespace(s),
    ensures
        tokens(s) == seq![s],
    decreases s.len(),
{
    let t = s.drop_last();
    assert(!is_whitespace(s[s.len() - 1]));
    if s.len() >= 2 {
        assert forall|i: int| 0 <= i < t.len() implies !is_whitespace(#[trigger] t[i]) by {
            assert(t[i] == s[i]);
        }
        lemma_tokens_of_word(t);
        assert(!is_whitespace(s[s.len() - 2]));
        assert(t.push(s.last()) =~= s);
        assert(seq![t].last() == t);
        assert(seq![t].drop_last().push(t.push(s.last())) =~= seq![s]);
    } else {
        assert(t =~= Seq::<char>::empty());
        assert(seq![s.last()] =~= s);
        assert(tokens(t) =~= Seq::<Seq<char>>::empty());
        assert(tokens(t).push(seq![s.last()]) =~= seq![s]);
    }
}

/// Two words with whitespace between them, and a rest that is empty or
/// begins with whitespace: the words of the whole are the two and then
/// those of the rest.
pub proof fn lemma_tokens_two_words(
    first: Seq<char>,
    gap: Seq<char>,
    second: Seq<char>,
    rest: Seq<char>,
)
    requires
        first.len() > 0,
        free_of_whitespace(first),
        gap.len() > 0,
        all_whitespace(gap),
        second.len() > 0,
        free_of_whitespace(second),
        rest.len() == 0 || is_whitespace(rest[0]),
    ensures
        tokens(first + gap + second + rest) == seq![first, second] + tokens(rest),
{
    let head = first + gap;
    lemma_tokens_of_word(first);
    lemma_tokens_of_word(second);
    lemma_tokens_of_whitespace(gap);
    assert(is_whitespace(gap[0]));
    lemma_tokens_concat(first, gap);
    assert(head.last() == gap[gap.len() - 1]);
    lemma_tokens_concat(head, second + rest);
    lemma_tokens_concat(second, rest);
    assert(first + gap + second + rest =~= head + (second + rest));
    assert(tokens(first) + tokens(gap) + (tokens(second) + tokens(rest)) =~= seq![first, second]
        + tokens(rest));
}

/// The search among two words and more: where the first word does not end
/// with `suffix`, the second is found if it does, and otherwise the search
/// goes on among the rest.
pub proof fn lemma_first_ending_with_two(
    first: Seq<char>,
    second: Seq<char>,
    more: Seq<Seq<char>>,
    suffix: Seq<char>,
)
    requires
        !ends_with_text(first, suffix),
    ensures
        first_ending_with(seq![first, second] + more, suffix) == if ends_with_text(
            second,
            suffix,
        ) {
            Some(second)
        } else {
            first_ending_with(more, suffix)
        },
{
    let words = seq![first, second] + more;
    let tail = words.drop_first();
    assert(words[0] == first);
    assert(tail[0] == second);
    assert(tail.drop_first() =~= more);
    assert(first_ending_with(words, suffix) == first_ending_with(tail, suffix));
}

/// A text whose last character differs from the last character of `suffix`
/// does not end with `suffix`.
pub proof fn lemma_other_last_char(s: Seq<char>, suffix: Seq<char>)
    requires
        suffix.len() > 0,
        s.len() == 0 || s.last() != suffix.last(),
    ensures
        !ends_with_text(s, suffix),
{
    if ends_with_text(s, suffix) {
        let part = s.subrange(s.len() - suffix.len(), s.len() as int);
        assert(part[suffix.len() - 1] == s.last());
    }
}

/// The character of a decimal digit.
pub open spec fn digit_char(d: nat) -> char
    recommends
        d < 10,
{
    ((0x30 + d) as u8) as char
}

/// A number in decimal, without leading zeros: `0` is `0`, `120` is `120`.
pub open spec fn decimal_text(n: nat) -> Seq<char>
    decreases n,
{
    if n < 10 {
        seq![digit_char(n)]
    } else {
        decimal_text(n / 10).push(digit_char(n % 10))
    }
}

/// A number below one hundred in two decimal digits: `7` is `07`.
pub open spec fn two_digit_text(n: nat) -> Seq<char>
    recommends
        n < 100,
{
    seq![digit_char(n / 10), digit_char(n % 10)]
}

/// Appends a number in decimal to the characters in `out`.
pub fn push_decimal(out: &mut Vec<char>, n: u64)
    ensures
        final(out)@ == old(out)@ + decimal_text(n as nat),
    decreases n,
{
    if n >= 10 {
        push_decimal(out, n / 10);
    }
    let d: u8 = (n % 10) as u8;
    out.push((0x30 + d) as char);
    assert(out@ =~= old(out)@ + decimal_text(n as nat));
}

/// Appends a number below one hundred in two decimal digits.
pub(crate) fn push_two_digits(out: &mut Vec<char>, n: u64)
    requires
        n < 100,
    ensures
        final(out)@ == old(out)@ + two_digit_text(n as nat),
{
    let tens: u8 = (n / 10) as u8;
    let ones: u8 = (n % 10) as u8;
    out.push((0x30 + tens) as char);
    out.push((0x30 + ones) as char);
    assert(out@ =~= old(out)@ + two_digit_text(n as nat));
}

/// The position of the first line feed in the text, or the text's length
/// where it holds none.
pub open spec fn newline_position(s: Seq<char>) -> nat
    decreases s.len(),
{
    if s.len() == 0 || s[0] == '\n' {
        0
    } else {
        1 + newline_position(s.drop_first())
    }
}

/// The text without the carriage return that it ends with, if it ends with one.
pub open spec fn without_carriage_return(s: Seq<char>) -> Seq<char> {
    if s.len() > 0 && s.last() == '\r' {
        s.drop_last()
    } else {
        s
    }
}

/// The lines of a text. A line ends at a line feed, or at a carriage return
/// followed by a line feed; neither belongs to the line. What follows the
/// last line feed is a line too unless it is empty, and it keeps a carriage
/// return at its end.
pub open spec fn lines_of(s: Seq<char>) -> Seq<Seq<char>>
    decreases s.len(),
{
    if s.len() == 0 {
        Seq::empty()
    } else {
        let k = newline_position(s);
        if k < s.len() {
            seq![without_carriage_return(s.take(k as int))] + lines_of(s.skip(k as int + 1))
        } else {
            seq![s]
        }
    }
}

/// Where no line feed stands before position `k` and one stands at `k` (or
/// `k` is the text's end), `k` is the position of the first line feed.
pub proof fn lemma_newline_position_is(s: Seq<char>, k: int)
    requires
        0 <= k <= s.len(),
        forall|i: int| 0 <= i < k ==> s[i] != '\n',
        k < s.len() ==> s[k] == '\n',
    ensures
        newline_position(s) == k,
    decreases k,
{
    if k > 0 {
        let t = s.drop_first();
        assert(s[0] != '\n');
        assert forall|i: int| 0 <= i < k - 1 implies t[i] != '\n' by {
            assert(t[i] == s[i + 1]);
        }
        lemma_newline_position_is(t, k - 1);
    }
}

/// Splits a text into its lines.
pub fn split_lines(s: &Vec<char>) -> (r: Vec<Vec<char>>)
    ensures
        texts(r@) == lines_of(s@),
{
    let mut done: Vec<Vec<char>> = Vec::new();
    let mut start: usize = 0;
    assert(s@.skip(0) =~= s@);
    assert(texts(done@) + lines_of(s@) =~= lines_of(s@));
    while start < s.len()
        invariant
            start <= s.len(),
            lines_of(s@) == texts(done@) + lines_of(s@.skip(start as int)),
        decreases s.len() - start,
    {
        let ghost rest = s@.skip(start as int);
        let mut line: Vec<char> = Vec::new();
        let mut end: usize = start;
        while end < s.len() && s[end] != '\n'
            invariant
                start <= end <= s.len(),
                line@ =~= s@.subrange(start as int, end as int),
                forall|i: int| start <= i < end ==> s@[i] != '\n',
            decreases s.len() - end,
        {
            line.push(s[end]);
            end = end + 1;
        }
        proof {
            assert forall|i: int| 0 <= i < end - start implies rest[i] != '\n' by {
                assert(rest[i] == s@[i + start]);
            }
            lemma_newline_position_is(rest, end - start);
            assert(rest.take(end - start) =~= line@);
        }
        let ghost old_done = done@;
        if end < s.len() {
            let n = line.len();
            if n > 0 && line[n - 1] == '\r' {
                line.pop();
                assert(line@ =~= without_carriage_return(rest.take(end - start)));
            }
            done.push(line);
            proof {
                assert(rest.skip(end - start + 1) =~= s@.skip(end + 1));
                assert(texts(done@) =~= texts(old_done) + seq![
                    without_carriage_return(rest.take(end - start)),
                ]);
                assert(lines_of(rest) == seq![without_carriage_return(rest.take(end - start))]
                    + lines_of(s@.skip(end + 1)));
            }
            start = end + 1;
        } else {
            done.push(line);
            proof {
                assert(rest.take(end - start) =~= rest);
                assert(texts(done@) =~= texts(old_done) + seq![rest]);
                assert(s@.skip(end as int) =~= Seq::<char>::empty());
                assert(lines_of(s@.skip(end as int)) =~= Seq::<Seq<char>>::empty());
            }
            start = end;
        }
    }
    proof {
        assert(s@.skip(start as int) =~= Seq::<char>::empty());
        assert(texts(done@) + lines_of(s@.skip(start as int)) =~= texts(done@));
    }
    done
}

/// The number of bytes that a character takes in UTF-8.
pub open spec fn utf8_len(c: char) -> nat {
    let u = c as u32;
    if u < 0x80 {
        1
    } else if u < 0x800 {
        2
    } else if u < 0x10000 {
        3
    } else {
        4
    }
}

/// How many characters from the start of the text fit, whole, within
/// `limit` bytes of UTF-8.
pub open spec fn chars_within(s: Seq<char>, limit: nat) -> nat
    decreases s.len(),
{
    if s.len() == 0 || utf8_len(s[0]) > limit {
        0
    } else {
        1 + chars_within(s.drop_first(), (limit - utf8_len(s[0])) as nat)
    }
}

/// The longest piece that the text begins with and that takes no more than
/// `limit` bytes of UTF-8. No character is cut in two.
pub open spec fn cut_to_bytes(s: Seq<char>, limit: nat) -> Seq<char> {
    s.take(chars_within(s, limit) as int)
}

/// The number of bytes that a character takes in UTF-8.
pub fn char_utf8_len(c: char) -> (n: usize)
    ensures
        n == utf8_len(c),
{
    let u: u32 = c as u32;
    if u < 0x80 {
        1
    } else if u < 0x800 {
        2
    } else if u < 0x10000 {
        3
    } else {
        4
    }
}

/// A copy of the longest piece that the text begins with and that takes no
/// more than `limit` bytes of UTF-8.
pub fn truncate_to_bytes(s: &Vec<char>, limit: usize) -> (r: Vec<char>)
    ensures
        r@ == cut_to_bytes(s@, limit as nat),
{
    let mut r: Vec<char> = Vec::new();
    let mut left: usize = limit;
    let mut i: usize = 0;
    assert(s@.skip(0) =~= s@);
    while i < s.len() && char_utf8_len(s[i]) <= left
        invariant
            i <= s.len(),
            left <= limit,
            r@ =~= s@.take(i as int),
            chars_within(s@, limit as nat) == i + chars_within(s@.skip(i as int), left as nat),
        decreases s.len() - i,
    {
        proof {
            let rest = s@.skip(i as int);
            assert(rest[0] == s@[i as int]);
            assert(rest.drop_first() =~= s@.skip(i + 1));
        }
        r.push(s[i]);
        left = left - char_utf8_len(s[i]);
        i = i + 1;
    }
    proof {
        let rest = s@.skip(i as int);
        if i < s.len() {
            assert(rest[0] == s@[i as int]);
        }
        assert(chars_within(rest, left as nat) == 0);
    }
    r
}

} // verus!
