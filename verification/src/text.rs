use vstd::prelude::*;
use vstd::slice::slice_subrange;
use vstd::string::StringExecFns;

verus! {

/// The text of a string, character by character.
pub type Text = Seq<char>;

/// The texts of a list of strings.
pub open spec fn texts(v: Seq<String>) -> Seq<Text> {
    v.map_values(|s: String| s@)
}

/// The text of a string, if there is one.
pub open spec fn opt_text(s: Option<String>) -> Option<Text> {
    match s {
        Some(t) => Some(t@),
        None => None,
    }
}

/// The contents of a list of slices.
pub open spec fn pieces<T>(v: Seq<&[T]>) -> Seq<Seq<T>> {
    v.map_values(|s: &[T]| s@)
}

/// Appends a character to the end of a `String`.
///
/// Speaks of `String::push`: the text afterwards is the text before with the
/// character at its end.
pub assume_specification[ String::push ](s: &mut String, c: char)
    ensures
        final(s)@ == old(s)@.push(c),
;

/// The characters of `s` in order.
pub fn chars_of(s: &str) -> (v: Vec<char>)
    ensures
        v@ == s@,
{
    let mut v: Vec<char> = Vec::new();
    for c in it: s.chars()
        invariant
            it.seq() == s@,
            v@ == s@.take(it.index()),
    {
        v.push(c);
    }
    v
}

/// The string made of the given characters.
pub fn string_of(s: &[char]) -> (r: String)
    ensures
        r@ == s@,
{
    let mut r = String::new();
    for i in 0..s.len()
        invariant
            r@ == s@.take(i as int),
    {
        r.push(s[i]);
    }
    assert(s@.take(s@.len() as int) == s@);
    r
}

/// Whether two strings have the same text.
pub fn same_text(a: &str, b: &str) -> (r: bool)
    ensures
        r == (a@ == b@),
{
    let x = chars_of(a);
    let y = chars_of(b);
    same_chars(x.as_slice(), y.as_slice())
}

/// Whether two runs of characters are the same.
pub fn same_chars(a: &[char], b: &[char]) -> (r: bool)
    ensures
        r == (a@ == b@),
{
    if a.len() != b.len() {
        return false;
    }
    for i in 0..a.len()
        invariant
            a@.len() == b@.len(),
            a@.take(i as int) == b@.take(i as int),
    {
        if a[i] != b[i] {
            return false;
        }
        assert(a@.take(i + 1) == a@.take(i as int).push(a@[i as int]));
        assert(b@.take(i + 1) == b@.take(i as int).push(b@[i as int]));
    }
    assert(a@.take(a@.len() as int) == a@);
    assert(b@.take(b@.len() as int) == b@);
    true
}

/// The characters with the Unicode property `White_Space`.
pub open spec fn white_space(c: char) -> bool {
    let u = c as u32;
    ||| 0x9 <= u <= 0xd
    ||| u == 0x20
    ||| u == 0x85
    ||| u == 0xa0
    ||| u == 0x1680
    ||| 0x2000 <= u <= 0x200a
    ||| u == 0x2028
    ||| u == 0x2029
    ||| u == 0x202f
    ||| u == 0x205f
    ||| u == 0x3000
}

/// Whether `c` has the Unicode property `White_Space`.
pub fn is_white_space(c: char) -> (r: bool)
    ensures
        r == white_space(c),
{
    let u: u32 = c as u32;
    (0x9 <= u && u <= 0xd) || u == 0x20 || u == 0x85 || u == 0xa0 || u == 0x1680 || (0x2000 <= u
        && u <= 0x200a) || u == 0x2028 || u == 0x2029 || u == 0x202f || u == 0x205f || u == 0x3000
}

/// The text without the white space at its start.
pub open spec fn trim_start(s: Text) -> Text
    decreases s.len(),
{
    if s.len() > 0 && white_space(s[0]) {
        trim_start(s.drop_first())
    } else {
        s
    }
}

/// The text without the white space at its end.
pub open spec fn trim_end(s: Text) -> Text
    decreases s.len(),
{
    if s.len() > 0 && white_space(s.last()) {
        trim_end(s.drop_last())
    } else {
        s
    }
}

/// The text without the white space at either end.
pub open spec fn trim(s: Text) -> Text {
    trim_end(trim_start(s))
}

/// Skips the white space at the start.
pub fn trimmed_start(s: &[char]) -> (r: &[char])
    ensures
        r@ == trim_start(s@),
{
    let mut i: usize = 0;
    assert(s@.skip(0) == s@);
    while i < s.len() && is_white_space(s[i])
        invariant
            i <= s@.len(),
            trim_start(s@) == trim_start(s@.skip(i as int)),
        decreases s@.len() - i,
    {
        assert(s@.skip(i as int).drop_first() == s@.skip(i + 1));
        i += 1;
    }
    slice_subrange(s, i, s.len())
}

/// Drops the white space at either end.
pub fn trimmed(s: &[char]) -> (r: &[char])
    ensures
        r@ == trim(s@),
{
    let t = trimmed_start(s);
    let mut n: usize = t.len();
    assert(t@.take(n as int) == t@);
    while n > 0 && is_white_space(t[n - 1])
        invariant
            n <= t@.len(),
            trim_end(t@) == trim_end(t@.take(n as int)),
        decreases n,
    {
        assert(t@.take(n as int).drop_last() == t@.take(n - 1));
        n -= 1;
    }
    slice_subrange(t, 0, n)
}

/// The text without the dots at its end.
pub open spec fn trim_dots(s: Text) -> Text
    decreases s.len(),
{
    if s.len() > 0 && s.last() == '.' {
        trim_dots(s.drop_last())
    } else {
        s
    }
}

/// The string without the dots at its end.
pub fn without_dots(s: &str) -> (r: String)
    ensures
        r@ == trim_dots(s@),
{
    let t = chars_of(s);
    let mut n: usize = t.len();
    assert(t@.take(n as int) == t@);
    while n > 0 && t[n - 1] == '.'
        invariant
            n <= t@.len(),
            trim_dots(t@) == trim_dots(t@.take(n as int)),
        decreases n,
    {
        assert(t@.take(n as int).drop_last() == t@.take(n - 1));
        n -= 1;
    }
    string_of(slice_subrange(t.as_slice(), 0, n))
}

/// Whether `s` starts with `p`.
pub open spec fn starts_with(s: Text, p: Text) -> bool {
    p.len() <= s.len() && s.take(p.len() as int) == p
}

/// Whether `s` starts with `p`.
pub fn has_prefix(s: &[char], p: &[char]) -> (r: bool)
    ensures
        r == starts_with(s@, p@),
{
    p.len() <= s.len() && same_chars(slice_subrange(s, 0, p.len()), p)
}

/// Whether `p` stands in `s` from position `i` on.
pub open spec fn stands_at(s: Text, p: Text, i: int) -> bool {
    0 <= i && i + p.len() <= s.len() && s.subrange(i, i + p.len()) == p
}

/// Whether `p` stands somewhere in `s`.
pub open spec fn contains(s: Text, p: Text) -> bool {
    exists|i: int| stands_at(s, p, i)
}

/// Whether `p` stands somewhere in `s`.
pub fn has_part(s: &[char], p: &[char]) -> (r: bool)
    ensures
        r == contains(s@, p@),
{
    let mut i: usize = 0;
    while i <= s.len() && p.len() <= s.len() - i
        invariant
            i <= s@.len() + 1,
            forall|j: int| 0 <= j < i ==> !stands_at(s@, p@, j),
        decreases s@.len() + 1 - i,
    {
        if same_chars(slice_subrange(s, i, i + p.len()), p) {
            assert(stands_at(s@, p@, i as int));
            return true;
        }
        if i == s.len() {
            assert forall|j: int| !stands_at(s@, p@, j) by {}
            return false;
        }
        i += 1;
    }
    false
}

/// The position of the first `x` in `s`, or the length of `s` if there is none.
pub open spec fn first_index<T>(s: Seq<T>, x: T) -> int
    decreases s.len(),
{
    if s.len() == 0 || s[0] == x {
        0
    } else {
        1 + first_index(s.drop_first(), x)
    }
}

/// The position found is within the sequence, and no earlier one holds `x`.
pub proof fn lemma_first_index<T>(s: Seq<T>, x: T)
    ensures
        0 <= first_index(s, x) <= s.len(),
        first_index(s, x) < s.len() ==> s[first_index(s, x)] == x,
        forall|j: int| 0 <= j < first_index(s, x) ==> s[j] != x,
    decreases s.len(),
{
    if s.len() > 0 && s[0] != x {
        lemma_first_index(s.drop_first(), x);
        assert forall|j: int| 0 <= j < first_index(s, x) implies s[j] != x by {
            if j > 0 {
                assert(s.drop_first()[j - 1] == s[j]);
            }
        }
    }
}

/// A position that holds `x`, with no `x` before it, is the first one.
pub proof fn lemma_first_index_is<T>(s: Seq<T>, x: T, k: int)
    requires
        0 <= k <= s.len(),
        k < s.len() ==> s[k] == x,
        forall|j: int| 0 <= j < k ==> s[j] != x,
    ensures
        first_index(s, x) == k,
{
    lemma_first_index(s, x);
    let f = first_index(s, x);
    if f < k {
        assert(s[f] != x);
    }
    if k < f {
        assert(s[k] != x);
    }
}

/// The sequence without one `cr` at its end, if it has one there.
pub open spec fn strip_cr<T>(s: Seq<T>, cr: T) -> Seq<T> {
    if s.len() > 0 && s.last() == cr {
        s.drop_last()
    } else {
        s
    }
}

/// The lines of `s`. A line ends with `lf`, or with `cr` and `lf`, neither of
/// which belongs to it; what follows the last `lf` is a line too unless it is
/// empty.
pub open spec fn split_lines<T>(s: Seq<T>, lf: T, cr: T) -> Seq<Seq<T>>
    decreases s.len(),
{
    proof {
        lemma_first_index(s, lf);
    }
    let k = first_index(s, lf);
    if s.len() == 0 {
        Seq::empty()
    } else if k < s.len() {
        seq![strip_cr(s.take(k), cr)] + split_lines(s.skip(k + 1), lf, cr)
    } else {
        seq![s]
    }
}

/// The lines of a text.
pub open spec fn lines(s: Text) -> Seq<Text> {
    split_lines(s, '\n', '\r')
}

/// The lines of a run of bytes.
pub open spec fn byte_lines(s: Seq<u8>) -> Seq<Seq<u8>> {
    split_lines(s, 10u8, 13u8)
}

/// The lines from `start` on begin with what stands before the line feed at `k`.
proof fn lemma_lines_step<T>(s: Seq<T>, start: int, k: int, lf: T, cr: T)
    requires
        0 <= start < s.len(),
        k - start == first_index(s.skip(start), lf),
    ensures
        start <= k <= s.len(),
        k < s.len() ==> split_lines(s.skip(start), lf, cr) == seq![
            strip_cr(s.subrange(start, k), cr),
        ] + split_lines(s.skip(k + 1), lf, cr),
        k == s.len() ==> split_lines(s.skip(start), lf, cr) == seq![s.subrange(start, k)],
{
    let t = s.skip(start);
    lemma_first_index(t, lf);
    assert(t.take(k - start) == s.subrange(start, k));
    if k < s.len() {
        assert(t.skip(k - start + 1) == s.skip(k + 1));
    } else {
        assert(t == s.subrange(start, k));
    }
}

/// The position of the first line feed from `from` on, or the length.
fn text_line_end(s: &[char], from: usize) -> (k: usize)
    requires
        from <= s@.len(),
    ensures
        from <= k <= s@.len(),
        k - from == first_index(s@.skip(from as int), '\n'),
{
    let mut k: usize = from;
    while k < s.len() && s[k] != '\n'
        invariant
            from <= k <= s@.len(),
            forall|j: int| 0 <= j < k - from ==> s@.skip(from as int)[j] != '\n',
        decreases s@.len() - k,
    {
        k += 1;
    }
    proof {
        lemma_first_index_is(s@.skip(from as int), '\n', k - from);
    }
    k
}

/// The lines of a text.
pub fn lines_of(s: &[char]) -> (r: Vec<&[char]>)
    ensures
        pieces(r@) == lines(s@),
{
    let mut r: Vec<&[char]> = Vec::new();
    let mut start: usize = 0;
    assert(s@.skip(0) == s@);
    while start < s.len()
        invariant
            start <= s@.len(),
            lines(s@) == pieces(r@) + lines(s@.skip(start as int)),
        decreases s@.len() - start,
    {
        let ghost before = pieces(r@);
        let k = text_line_end(s, start);
        proof {
            lemma_lines_step(s@, start as int, k as int, '\n', '\r');
        }
        if k == s.len() {
            r.push(slice_subrange(s, start, k));
            assert(pieces(r@) == before.push(s@.subrange(start as int, k as int)));
            assert(s@.skip(k as int) == Seq::<char>::empty());
            start = k;
        } else {
            let e = if k > start && s[k - 1] == '\r' {
                k - 1
            } else {
                k
            };
            r.push(slice_subrange(s, start, e));
            assert(s@.subrange(start as int, e as int) == strip_cr(
                s@.subrange(start as int, k as int),
                '\r',
            ));
            assert(pieces(r@) == before.push(s@.subrange(start as int, e as int)));
            start = k + 1;
        }
    }
    assert(s@.skip(start as int) == Seq::<char>::empty());
    r
}

/// The position of the first line feed from `from` on, or the length.
fn byte_line_end(s: &[u8], from: usize) -> (k: usize)
    requires
        from <= s@.len(),
    ensures
        from <= k <= s@.len(),
        k - from == first_index(s@.skip(from as int), 10u8),
{
    let mut k: usize = from;
    while k < s.len() && s[k] != 10u8
        invariant
            from <= k <= s@.len(),
            forall|j: int| 0 <= j < k - from ==> s@.skip(from as int)[j] != 10u8,
        decreases s@.len() - k,
    {
        k += 1;
    }
    proof {
        lemma_first_index_is(s@.skip(from as int), 10u8, k - from);
    }
    k
}

/// The lines of a run of bytes.
pub fn byte_lines_of(s: &[u8]) -> (r: Vec<&[u8]>)
    ensures
        pieces(r@) == byte_lines(s@),
{
    let mut r: Vec<&[u8]> = Vec::new();
    let mut start: usize = 0;
    assert(s@.skip(0) == s@);
    while start < s.len()
        invariant
            start <= s@.len(),
            byte_lines(s@) == pieces(r@) + byte_lines(s@.skip(start as int)),
        decreases s@.len() - start,
    {
        let ghost before = pieces(r@);
        let k = byte_line_end(s, start);
        proof {
            lemma_lines_step(s@, start as int, k as int, 10u8, 13u8);
        }
        if k == s.len() {
            r.push(slice_subrange(s, start, k));
            assert(pieces(r@) == before.push(s@.subrange(start as int, k as int)));
            assert(s@.skip(k as int) == Seq::<u8>::empty());
            start = k;
        } else {
            let e = if k > start && s[k - 1] == 13u8 {
                k - 1
            } else {
                k
            };
            r.push(slice_subrange(s, start, e));
            assert(s@.subrange(start as int, e as int) == strip_cr(
                s@.subrange(start as int, k as int),
                13u8,
            ));
            assert(pieces(r@) == before.push(s@.subrange(start as int, e as int)));
            start = k + 1;
        }
    }
    assert(s@.skip(start as int) == Seq::<u8>::empty());
    r
}

/// The length of the first word of `s`: how far it goes without white space.
pub open spec fn word_len(s: Text) -> int
    decreases s.len(),
{
    if s.len() == 0 || white_space(s[0]) {
        0
    } else {
        1 + word_len(s.drop_first())
    }
}

/// A word lies within its text, has no white space, and ends at white space or
/// at the end of the text.
pub proof fn lemma_word_len(s: Text)
    ensures
        0 <= word_len(s) <= s.len(),
        word_len(s) < s.len() ==> white_space(s[word_len(s)]),
        forall|j: int| 0 <= j < word_len(s) ==> !white_space(s[j]),
    decreases s.len(),
{
    if s.len() > 0 && !white_space(s[0]) {
        lemma_word_len(s.drop_first());
        assert forall|j: int| 0 <= j < word_len(s) implies !white_space(s[j]) by {
            if j > 0 {
                assert(s.drop_first()[j - 1] == s[j]);
            }
        }
    }
}

/// A length with no white space before it, at white space or at the end of the
/// text, is that of the first word.
pub proof fn lemma_word_len_is(s: Text, k: int)
    requires
        0 <= k <= s.len(),
        k < s.len() ==> white_space(s[k]),
        forall|j: int| 0 <= j < k ==> !white_space(s[j]),
    ensures
        word_len(s) == k,
{
    lemma_word_len(s);
    let w = word_len(s);
    if w < k {
        assert(!white_space(s[w]));
    }
    if k < w {
        assert(!white_space(s[k]));
    }
}

/// What is left is an end of the text that does not start with white space.
pub proof fn lemma_trim_start(s: Text)
    ensures
        trim_start(s).len() <= s.len(),
        trim_start(s) == s.skip(s.len() - trim_start(s).len()),
        trim_start(s).len() > 0 ==> !white_space(trim_start(s)[0]),
    decreases s.len(),
{
    if s.len() > 0 && white_space(s[0]) {
        lemma_trim_start(s.drop_first());
        let n = trim_start(s).len();
        assert(s.drop_first().skip(s.drop_first().len() - n) == s.skip(s.len() - n));
    } else {
        assert(s.skip(0) == s);
    }
}

/// The words of a text: its runs of characters that are not white space.
pub open spec fn words(s: Text) -> Seq<Text>
    decreases s.len(),
{
    proof {
        lemma_trim_start(s);
        lemma_word_len(trim_start(s));
        reveal_with_fuel(word_len, 2);
    }
    let t = trim_start(s);
    if t.len() == 0 {
        Seq::empty()
    } else {
        seq![t.take(word_len(t))] + words(t.skip(word_len(t)))
    }
}

/// The words of a text.
pub fn words_of(s: &[char]) -> (r: Vec<&[char]>)
    ensures
        pieces(r@) == words(s@),
{
    let mut r: Vec<&[char]> = Vec::new();
    let mut t: &[char] = trimmed_start(s);
    proof {
        lemma_trim_start(s@);
        lemma_trim_start_idle(t@);
    }
    while t.len() > 0
        invariant
            trim_start(t@) == t@,
            words(s@) == pieces(r@) + words(t@),
        decreases t@.len(),
    {
        let ghost before = pieces(r@);
        let ghost whole = t@;
        let mut k: usize = 0;
        while k < t.len() && !is_white_space(t[k])
            invariant
                k <= t@.len(),
                t@ == whole,
                forall|j: int| 0 <= j < k ==> !white_space(t@[j]),
            decreases t@.len() - k,
        {
            k += 1;
        }
        proof {
            lemma_word_len_is(t@, k as int);
            lemma_trim_start(t@);
        }
        r.push(slice_subrange(t, 0, k));
        assert(pieces(r@) == before.push(whole.take(k as int)));
        let rest = slice_subrange(t, k, t.len());
        t = trimmed_start(rest);
        proof {
            lemma_trim_start(rest@);
            lemma_trim_start_idle(t@);
            lemma_words_trim_start(rest@);
            assert(rest@ == whole.skip(k as int));
        }
    }
    r
}

/// A text that does not start with white space has none to trim there.
proof fn lemma_trim_start_idle(s: Text)
    requires
        s.len() > 0 ==> !white_space(s[0]),
    ensures
        trim_start(s) == s,
{
}

/// White space at the start of a text does not change its words.
pub proof fn lemma_words_trim_start(s: Text)
    ensures
        words(trim_start(s)) == words(s),
{
    lemma_trim_start(s);
    lemma_trim_start_idle(trim_start(s));
}

/// The parts in order, with `sep` between each two.
pub open spec fn join(parts: Seq<Text>, sep: Text) -> Text
    decreases parts.len(),
{
    if parts.len() == 0 {
        Seq::empty()
    } else if parts.len() == 1 {
        parts[0]
    } else {
        join(parts.drop_last(), sep) + sep + parts.last()
    }
}

/// The parts in order, with `sep` between each two.
pub fn joined(parts: &Vec<String>, sep: &str) -> (r: String)
    ensures
        r@ == join(texts(parts@), sep@),
{
    let mut r = String::new();
    let ghost all = texts(parts@);
    for i in 0..parts.len()
        invariant
            all == texts(parts@),
            r@ == join(all.take(i as int), sep@),
    {
        if i > 0 {
            r.append(sep);
        }
        r.append(parts[i].as_str());
        assert(all.take(i + 1).drop_last() == all.take(i as int));
        assert(all.take(i + 1).last() == parts@[i as int]@);
    }
    assert(all.take(all.len() as int) == all);
    r
}

/// Whether a list of strings holds one with the text of `s`.
pub fn lists(v: &Vec<String>, s: &str) -> (r: bool)
    ensures
        r == texts(v@).contains(s@),
{
    let ghost all = texts(v@);
    for i in 0..v.len()
        invariant
            all == texts(v@),
            forall|j: int| 0 <= j < i ==> all[j] != s@,
    {
        assert(all[i as int] == v@[i as int]@);
        if same_text(v[i].as_str(), s) {
            return true;
        }
    }
    false
}

/// The strings without the dots at their ends.
pub open spec fn trim_dots_all(names: Seq<Text>) -> Seq<Text> {
    names.map_values(|name: Text| trim_dots(name))
}

/// The strings without the dots at their ends.
pub fn all_without_dots(names: &Vec<String>) -> (r: Vec<String>)
    ensures
        texts(r@) == trim_dots_all(texts(names@)),
{
    let mut r: Vec<String> = Vec::new();
    let ghost all = texts(names@);
    for i in 0..names.len()
        invariant
            all == texts(names@),
            texts(r@) == trim_dots_all(all.take(i as int)),
    {
        let name = without_dots(names[i].as_str());
        let ghost before = texts(r@);
        r.push(name);
        assert(texts(r@) == before.push(name@));
        assert(all.take(i + 1) == all.take(i as int).push(names@[i as int]@));
        assert(trim_dots_all(all.take(i + 1)) == trim_dots_all(all.take(i as int)).push(name@));
    }
    assert(all.take(all.len() as int) == all);
    r
}

} // verus!
