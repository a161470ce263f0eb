use crate::text;
use crate::text::Text;
use vstd::prelude::*;

verus! {

/// The first position of `x` does not depend on what follows it.
pub proof fn lemma_first_index_in_front<T>(a: Seq<T>, b: Seq<T>, x: T)
    requires
        text::first_index(a, x) < a.len(),
    ensures
        text::first_index(a + b, x) == text::first_index(a, x),
{
    text::lemma_first_index(a, x);
    text::lemma_first_index_is(a + b, x, text::first_index(a, x));
}

/// Text that ends with a line feed can be split there: its lines come first, then those
/// of what follows.
pub proof fn lines_split_at_line_feed<T>(a: Seq<T>, b: Seq<T>, lf: T, cr: T)
    requires
        a.len() > 0,
        a.last() == lf,
    ensures
        text::split_lines(a + b, lf, cr) == text::split_lines(a, lf, cr) + text::split_lines(
            b,
            lf,
            cr,
        ),
    decreases a.len(),
{
    text::lemma_first_index(a, lf);
    let k = text::first_index(a, lf);
    assert(k < a.len()) by {
        if k == a.len() {
            assert(a[a.len() - 1] != lf);
        }
    }
    lemma_first_index_in_front(a, b, lf);
    assert((a + b).take(k) == a.take(k));
    assert((a + b).skip(k + 1) == a.skip(k + 1) + b);
    let first = seq![text::strip_cr(a.take(k), cr)];
    if k + 1 == a.len() {
        assert(a.skip(k + 1) == Seq::<T>::empty());
        assert(a.skip(k + 1) + b == b);
        assert(text::split_lines(a.skip(k + 1), lf, cr) == Seq::<Seq<T>>::empty());
        assert(text::split_lines(a, lf, cr) == first);
    } else {
        lines_split_at_line_feed(a.skip(k + 1), b, lf, cr);
        assert(first + (text::split_lines(a.skip(k + 1), lf, cr) + text::split_lines(b, lf, cr))
            == (first + text::split_lines(a.skip(k + 1), lf, cr)) + text::split_lines(b, lf, cr));
    }
}

/// A text with a line feed at its end and none before is one line.
pub proof fn one_line<T>(a: Seq<T>, lf: T, cr: T)
    requires
        forall|j: int| 0 <= j < a.len() ==> a[j] != lf,
    ensures
        text::split_lines(a.push(lf), lf, cr) == seq![text::strip_cr(a, cr)],
{
    let s = a.push(lf);
    assert forall|j: int| 0 <= j < a.len() implies s[j] != lf by {
        assert(s[j] == a[j]);
    }
    text::lemma_first_index_is(s, lf, a.len() as int);
    assert(s.take(a.len() as int) == a);
    assert(s.skip(a.len() as int + 1) == Seq::<T>::empty());
    assert(text::split_lines(s.skip(a.len() as int + 1), lf, cr) == Seq::<Seq<T>>::empty());
}

/// No line holds a line feed.
pub proof fn lines_hold_no_line_feed<T>(s: Seq<T>, lf: T, cr: T, i: int, j: int)
    requires
        0 <= i < text::split_lines(s, lf, cr).len(),
        0 <= j < text::split_lines(s, lf, cr)[i].len(),
    ensures
        text::split_lines(s, lf, cr)[i][j] != lf,
    decreases s.len(),
{
    text::lemma_first_index(s, lf);
    let k = text::first_index(s, lf);
    if k < s.len() {
        if i == 0 {
            assert(text::split_lines(s, lf, cr)[0] == text::strip_cr(s.take(k), cr));
            assert(text::strip_cr(s.take(k), cr)[j] == s[j]);
        } else {
            let rest = text::split_lines(s.skip(k + 1), lf, cr);
            assert(text::split_lines(s, lf, cr)[i] == rest[i - 1]);
            lines_hold_no_line_feed(s.skip(k + 1), lf, cr, i - 1, j);
        }
    } else {
        assert(text::split_lines(s, lf, cr)[i] == s);
    }
}

/// White space in front does not change the words.
proof fn lemma_words_after_white_space(c: char, s: Text)
    requires
        text::white_space(c),
    ensures
        text::words(seq![c] + s) == text::words(s),
{
    assert((seq![c] + s).drop_first() == s);
    assert(text::trim_start(seq![c] + s) == text::trim_start(s));
}

/// Trimming the start of a text with more than white space stays within it.
proof fn lemma_trim_start_in_front(a: Text, b: Text)
    requires
        text::trim_start(a).len() > 0,
    ensures
        text::trim_start(a + b) == text::trim_start(a) + b,
    decreases a.len(),
{
    if text::white_space(a[0]) {
        lemma_trim_start_in_front(a.drop_first(), b);
        assert((a + b).drop_first() == a.drop_first() + b);
        assert((a + b)[0] == a[0]);
    } else {
        assert((a + b)[0] == a[0]);
    }
}

/// White space in front of a text is trimmed off.
proof fn lemma_trim_start_past(a: Text, b: Text)
    requires
        text::trim_start(a).len() == 0,
    ensures
        text::trim_start(a + b) == text::trim_start(b),
    decreases a.len(),
{
    if a.len() == 0 {
        assert(a + b == b);
    } else {
        lemma_trim_start_past(a.drop_first(), b);
        assert((a + b).drop_first() == a.drop_first() + b);
        assert((a + b)[0] == a[0]);
    }
}

/// A text can be split into words at any white space.
pub proof fn words_split_at_white_space(a: Text, c: char, b: Text)
    requires
        text::white_space(c),
    ensures
        text::words(a + seq![c] + b) == text::words(a) + text::words(b),
    decreases a.len(),
{
    let cb = seq![c] + b;
    assert(a + seq![c] + b == a + cb);
    lemma_words_after_white_space(c, b);
    text::lemma_trim_start(a);
    let t = text::trim_start(a);
    if t.len() == 0 {
        lemma_trim_start_past(a, cb);
        text::lemma_words_trim_start(a + cb);
        text::lemma_words_trim_start(cb);
        assert(text::words(a) == Seq::<Text>::empty());
    } else {
        lemma_trim_start_in_front(a, cb);
        text::lemma_word_len(t);
        let w = text::word_len(t);
        let tc = t + cb;
        assert forall|j: int| 0 <= j < w implies !text::white_space(tc[j]) by {
            assert(tc[j] == t[j]);
        }
        if w < t.len() {
            assert(tc[w] == t[w]);
        } else {
            assert(tc[w] == c);
        }
        text::lemma_word_len_is(tc, w);
        assert(w > 0) by {
            reveal_with_fuel(text::word_len, 2);
        }
        assert(tc.take(w) == t.take(w));
        assert(tc.skip(w) == t.skip(w) + seq![c] + b);
        words_split_at_white_space(t.skip(w), c, b);
        assert(seq![t.take(w)] + (text::words(t.skip(w)) + text::words(b)) == (seq![t.take(w)]
            + text::words(t.skip(w))) + text::words(b));
    }
}

/// Whether a text is a single word.
pub open spec fn is_word(s: Text) -> bool {
    &&& s.len() > 0
    &&& forall|j: int| 0 <= j < s.len() ==> !text::white_space(s[j])
}

/// A word is its own only word.
pub proof fn a_word_is_one_word(s: Text)
    requires
        is_word(s),
    ensures
        text::words(s) == seq![s],
{
    text::lemma_word_len_is(s, s.len() as int);
    assert(text::trim_start(s) == s);
    assert(s.take(s.len() as int) == s);
    assert(s.skip(s.len() as int) == Seq::<char>::empty());
    assert(text::words(s.skip(s.len() as int)) == Seq::<Text>::empty());
}

/// The words of a text are words, and hold only characters of the text.
pub proof fn words_are_words(s: Text, i: int)
    requires
        0 <= i < text::words(s).len(),
    ensures
        is_word(text::words(s)[i]),
        forall|j: int| 0 <= j < text::words(s)[i].len() ==> s.contains(text::words(s)[i][j]),
    decreases s.len(),
{
    text::lemma_trim_start(s);
    let t = text::trim_start(s);
    text::lemma_word_len(t);
    let w = text::word_len(t);
    assert(w > 0) by {
        reveal_with_fuel(text::word_len, 2);
    }
    let skipped = s.len() - t.len();
    if i == 0 {
        assert(text::words(s)[0] == t.take(w));
        assert forall|j: int| 0 <= j < w implies s.contains(t.take(w)[j]) by {
            assert(s[skipped + j] == t[j]);
        }
    } else {
        let rest = t.skip(w);
        assert(text::words(s)[i] == text::words(rest)[i - 1]);
        words_are_words(rest, i - 1);
        assert forall|j: int| 0 <= j < text::words(s)[i].len() implies s.contains(
            text::words(s)[i][j],
        ) by {
            assert(rest.contains(text::words(rest)[i - 1][j]));
            let k = choose|k: int| 0 <= k < rest.len() && rest[k] == text::words(rest)[i - 1][j];
            assert(s[skipped + w + k] == rest[k]);
        }
    }
}

/// The words of texts joined with spaces are the words of each in order.
pub proof fn words_of_join(parts: Seq<Text>)
    ensures
        parts.len() > 0 ==> text::words(text::join(parts, " "@)) == text::words(
            text::join(parts.drop_last(), " "@),
        ) + text::words(parts.last()),
{
    reveal_strlit(" ");
    assert(" "@ == seq![' ']);
    if parts.len() == 1 {
        assert(text::join(parts.drop_last(), " "@) == Seq::<char>::empty());
        assert(text::words(Seq::empty()) == Seq::<Text>::empty());
    } else if parts.len() > 1 {
        words_split_at_white_space(text::join(parts.drop_last(), " "@), ' ', parts.last());
    }
}

/// Words joined with spaces can be told apart again.
pub proof fn joined_words_split_again(parts: Seq<Text>)
    requires
        forall|i: int| 0 <= i < parts.len() ==> is_word(#[trigger] parts[i]),
    ensures
        text::words(text::join(parts, " "@)) == parts,
    decreases parts.len(),
{
    if parts.len() == 0 {
        assert(text::words(Seq::empty()) == Seq::<Text>::empty());
    } else {
        words_of_join(parts);
        joined_words_split_again(parts.drop_last());
        a_word_is_one_word(parts.last());
        assert(parts.drop_last() + seq![parts.last()] == parts);
    }
}

/// A word among texts joined with spaces is among the words of the whole.
pub proof fn a_joined_word_is_found(parts: Seq<Text>, i: int)
    requires
        0 <= i < parts.len(),
        is_word(parts[i]),
    ensures
        text::words(text::join(parts, " "@)).contains(parts[i]),
    decreases parts.len(),
{
    words_of_join(parts);
    let front = text::words(text::join(parts.drop_last(), " "@));
    let back = text::words(parts.last());
    if i == parts.len() - 1 {
        a_word_is_one_word(parts[i]);
        assert((front + back)[front.len() as int] == parts[i]);
    } else {
        a_joined_word_is_found(parts.drop_last(), i);
        let k = choose|k: int| 0 <= k < front.len() && front[k] == parts[i];
        assert((front + back)[k] == parts[i]);
    }
}

/// A text without white space at either end stays as it is when it is trimmed.
pub proof fn trimmed_text_stays(s: Text)
    requires
        s.len() > 0 ==> !text::white_space(s[0]) && !text::white_space(s.last()),
    ensures
        text::trim(s) == s,
{
}

/// What is left of a text when it is trimmed has no white space at either end.
pub proof fn trimmed_text_is_trimmed(s: Text)
    ensures
        text::trim(s).len() > 0 ==> !text::white_space(text::trim(s)[0]) && !text::white_space(
            text::trim(s).last(),
        ),
        forall|j: int| 0 <= j < text::trim(s).len() ==> s.contains(#[trigger] text::trim(s)[j]),
{
    text::lemma_trim_start(s);
    let t = text::trim_start(s);
    lemma_trim_end(t);
    assert forall|j: int| 0 <= j < text::trim(s).len() implies s.contains(
        #[trigger] text::trim(s)[j],
    ) by {
        assert(t[j] == s[s.len() - t.len() + j]);
    }
}

/// What is left is a start of the text that does not end with white space, and what is
/// cut off is white space.
pub proof fn lemma_trim_end(s: Text)
    ensures
        text::trim_end(s).len() <= s.len(),
        text::trim_end(s) == s.take(text::trim_end(s).len() as int),
        text::trim_end(s).len() > 0 ==> !text::white_space(text::trim_end(s).last()),
        forall|j: int| text::trim_end(s).len() <= j < s.len() ==> text::white_space(s[j]),
        text::words(text::trim_end(s)) == text::words(s),
    decreases s.len(),
{
    if s.len() > 0 && text::white_space(s.last()) {
        lemma_trim_end(s.drop_last());
        let n = text::trim_end(s).len() as int;
        assert(s.drop_last().take(n) == s.take(n));
        assert forall|j: int| n <= j < s.len() implies text::white_space(s[j]) by {
            if j < s.len() - 1 {
                assert(s.drop_last()[j] == s[j]);
            }
        }
        words_split_at_white_space(s.drop_last(), s.last(), Seq::empty());
        assert(s.drop_last() + seq![s.last()] + Seq::<char>::empty() == s);
        assert(text::words(Seq::empty()) == Seq::<Text>::empty());
    } else {
        assert(s.take(s.len() as int) == s);
    }
}

/// What is left when the dots are trimmed is a start of the text that does not end with
/// a dot.
pub proof fn dots_are_trimmed(s: Text)
    ensures
        text::trim_dots(s).len() <= s.len(),
        text::trim_dots(s) == s.take(text::trim_dots(s).len() as int),
        text::trim_dots(s).len() > 0 ==> text::trim_dots(s).last() != '.',
        forall|j: int| text::trim_dots(s).len() <= j < s.len() ==> s[j] == '.',
    decreases s.len(),
{
    if s.len() > 0 && s.last() == '.' {
        dots_are_trimmed(s.drop_last());
        let n = text::trim_dots(s).len() as int;
        assert(s.drop_last().take(n) == s.take(n));
        assert forall|j: int| n <= j < s.len() implies s[j] == '.' by {
            if j < s.len() - 1 {
                assert(s.drop_last()[j] == s[j]);
            }
        }
    } else {
        assert(s.take(s.len() as int) == s);
    }
}

/// A text of white space only is trimmed away at its start.
proof fn lemma_trim_start_white(a: Text)
    requires
        forall|j: int| 0 <= j < a.len() ==> text::white_space(#[trigger] a[j]),
    ensures
        text::trim_start(a).len() == 0,
    decreases a.len(),
{
    if a.len() > 0 {
        let rest = a.drop_first();
        assert forall|j: int| 0 <= j < rest.len() implies text::white_space(#[trigger] rest[j]) by {
            assert(rest[j] == a[j + 1]);
        }
        lemma_trim_start_white(rest);
    }
}

/// White space behind a text is trimmed away.
proof fn lemma_trim_end_white(m: Text, b: Text)
    requires
        forall|j: int| 0 <= j < b.len() ==> text::white_space(#[trigger] b[j]),
        m.len() > 0 ==> !text::white_space(m.last()),
    ensures
        text::trim_end(m + b) == m,
    decreases b.len(),
{
    if b.len() == 0 {
        assert(m + b == m);
    } else {
        let front = b.drop_last();
        assert forall|j: int| 0 <= j < front.len() implies text::white_space(
            #[trigger] front[j],
        ) by {
            assert(front[j] == b[j]);
        }
        lemma_trim_end_white(m, front);
        assert((m + b).drop_last() == m + front);
        assert((m + b).last() == b[b.len() - 1]);
    }
}

/// Trimming takes away the white space around a text and nothing else.
pub proof fn white_space_around_is_trimmed(a: Text, m: Text, b: Text)
    requires
        forall|j: int| 0 <= j < a.len() ==> text::white_space(#[trigger] a[j]),
        forall|j: int| 0 <= j < b.len() ==> text::white_space(#[trigger] b[j]),
        m.len() > 0 ==> !text::white_space(m[0]) && !text::white_space(m.last()),
    ensures
        text::trim(a + m + b) == m,
{
    assert(a + m + b == a + (m + b));
    lemma_trim_start_white(a);
    lemma_trim_start_past(a, m + b);
    if m.len() == 0 {
        assert(m + b == b);
        lemma_trim_start_white(b);
    } else {
        assert((m + b)[0] == m[0]);
        lemma_trim_end_white(m, b);
    }
}

/// A text starts with another if and only if it is that text with more behind it.
pub proof fn a_prefix_stands_in_front(s: Text, p: Text, rest: Text)
    ensures
        text::starts_with(p + rest, p),
        text::starts_with(s, p) ==> p.len() <= s.len() && s == p + s.skip(p.len() as int),
{
    assert((p + rest).take(p.len() as int) == p);
    if text::starts_with(s, p) {
        assert(s == s.take(p.len() as int) + s.skip(p.len() as int));
    }
}

/// A text contains another if and only if it is that text with more around it.
pub proof fn a_part_stands_inside(s: Text, p: Text, a: Text, b: Text)
    ensures
        text::contains(a + p + b, p),
        text::contains(s, p) ==> exists|x: Text, y: Text| s == #[trigger] (x + p + y),
{
    let whole = a + p + b;
    assert(whole.subrange(a.len() as int, (a.len() + p.len()) as int) == p);
    assert(text::stands_at(whole, p, a.len() as int));
    if text::contains(s, p) {
        let i = choose|i: int| text::stands_at(s, p, i);
        assert(s == s.take(i) + p + s.skip(i + p.len()));
    }
}

/// Lines end with a line feed, or with a carriage return and a line feed.
proof fn lemma_lines<T>(a: Seq<T>, b: Seq<T>, lf: T, cr: T)
    requires
        lf != cr,
        !a.contains(lf),
    ensures
        a.len() == 0 || a.last() != cr ==> text::split_lines(a.push(lf) + b, lf, cr) == seq![a]
            + text::split_lines(b, lf, cr),
        text::split_lines(a.push(cr).push(lf) + b, lf, cr) == seq![a] + text::split_lines(
            b,
            lf,
            cr,
        ),
        a.len() > 0 ==> text::split_lines(a, lf, cr) == seq![a],
        text::split_lines(Seq::<T>::empty(), lf, cr) == Seq::<Seq<T>>::empty(),
{
    let c = a.push(cr);
    assert forall|j: int| 0 <= j < a.len() implies a[j] != lf by {
        assert(a.contains(a[j]));
    }
    assert forall|j: int| 0 <= j < c.len() implies c[j] != lf by {
        if j < a.len() {
            assert(c[j] == a[j]);
        }
    }
    one_line(a, lf, cr);
    one_line(c, lf, cr);
    lines_split_at_line_feed(a.push(lf), b, lf, cr);
    lines_split_at_line_feed(c.push(lf), b, lf, cr);
    assert(c.drop_last() == a);
    text::lemma_first_index_is(a, lf, a.len() as int);
}

/// The lines of a text, one by one: a line ends with a line feed, or with a carriage return
/// and a line feed, neither of which belongs to it, and what no line feed ends is a line
/// unless it is empty.
pub proof fn text_is_read_line_by_line(a: Text, b: Text)
    requires
        !a.contains('\n'),
    ensures
        a.len() == 0 || a.last() != '\r' ==> text::lines(a.push('\n') + b) == seq![a]
            + text::lines(b),
        text::lines(a.push('\r').push('\n') + b) == seq![a] + text::lines(b),
        a.len() > 0 ==> text::lines(a) == seq![a],
        text::lines(Seq::empty()) == Seq::<Text>::empty(),
{
    lemma_lines(a, b, '\n', '\r');
}

/// The lines of a run of bytes, one by one: as those of a text.
pub proof fn bytes_are_read_line_by_line(a: Seq<u8>, b: Seq<u8>)
    requires
        !a.contains(10u8),
    ensures
        a.len() == 0 || a.last() != 13u8 ==> text::byte_lines(a.push(10u8) + b) == seq![a]
            + text::byte_lines(b),
        text::byte_lines(a.push(13u8).push(10u8) + b) == seq![a] + text::byte_lines(b),
        a.len() > 0 ==> text::byte_lines(a) == seq![a],
        text::byte_lines(Seq::empty()) == Seq::<Seq<u8>>::empty(),
{
    lemma_lines(a, b, 10u8, 13u8);
}

/// A text without white space is one word, unless it is empty.
pub proof fn text_without_white_space_is_a_word(s: Text)
    requires
        forall|j: int| 0 <= j < s.len() ==> !text::white_space(#[trigger] s[j]),
    ensures
        text::words(s) == (if s.len() > 0 {
            seq![s]
        } else {
            Seq::<Text>::empty()
        }),
{
    if s.len() > 0 {
        a_word_is_one_word(s);
    }
}

/// Joining two lists is joining each, with the separator between them; one part is joined
/// to itself.
pub proof fn joined_lists_are_joined(a: Seq<Text>, b: Seq<Text>, sep: Text)
    ensures
        a.len() > 0 && b.len() > 0 ==> text::join(a + b, sep) == text::join(a, sep) + sep
            + text::join(b, sep),
        a.len() == 1 ==> text::join(a, sep) == a[0],
        a.len() == 0 ==> text::join(a, sep).len() == 0,
    decreases b.len(),
{
    if a.len() > 0 && b.len() > 0 {
        assert((a + b).drop_last() == a + b.drop_last());
        assert((a + b).last() == b.last());
        if b.len() == 1 {
            assert(a + b.drop_last() == a);
        } else {
            joined_lists_are_joined(a, b.drop_last(), sep);
            assert(text::join(a + b, sep) == text::join(a, sep) + sep + text::join(b, sep));
        }
    }
}

/// The dots are taken off the end of each name, and off nothing else: a name that does not
/// end with a dot stays, with any number of dots behind it.
pub proof fn dots_behind_names_are_trimmed(names: Seq<Text>, i: int, name: Text, dots: Text)
    requires
        0 <= i < names.len(),
        names[i] == name + dots,
        name.len() > 0 ==> name.last() != '.',
        forall|j: int| 0 <= j < dots.len() ==> #[trigger] dots[j] == '.',
    ensures
        text::trim_dots(names[i]) == name,
        text::trim_dots_all(names).len() == names.len(),
        text::trim_dots_all(names)[i] == name,
{
    let s = names[i];
    dots_are_trimmed(s);
    let n = text::trim_dots(s).len();
    if n > name.len() {
        assert(s[n - 1] == dots[n - 1 - name.len()]);
    } else if n < name.len() {
        assert(s[name.len() - 1] == name.last());
    }
    assert(s.take(name.len() as int) == name);
}

} // verus!
