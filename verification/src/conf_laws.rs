use crate::conf;
use crate::text;
use crate::text::Text;
use crate::text_laws;
use vstd::prelude::*;

verus! {

/// Whether a text can stand on a `nameserver` line: it is not empty, has no white space
/// at either end, and no line feed.
pub open spec fn is_address(s: Text) -> bool {
    &&& s.len() > 0
    &&& !text::white_space(s[0])
    &&& !text::white_space(s.last())
    &&& forall|j: int| 0 <= j < s.len() ==> s[j] != '\n'
}

/// The nameservers of lines are those of the first lines, then those of the rest.
pub proof fn lemma_nameservers_add(a: Seq<Text>, b: Seq<Text>)
    ensures
        conf::nameservers_in(a + b) == conf::nameservers_in(a) + conf::nameservers_in(b),
    decreases b.len(),
{
    if b.len() == 0 {
        assert(a + b == a);
    } else {
        lemma_nameservers_add(a, b.drop_last());
        assert((a + b).drop_last() == a + b.drop_last());
        assert((a + b).last() == b.last());
    }
}

/// The search domains of lines are those of the first lines, then those of the rest.
pub proof fn lemma_searches_add(a: Seq<Text>, b: Seq<Text>)
    ensures
        conf::searches_in(a + b) == conf::searches_in(a) + conf::searches_in(b),
    decreases b.len(),
{
    if b.len() == 0 {
        assert(a + b == a);
    } else {
        lemma_searches_add(a, b.drop_last());
        assert((a + b).drop_last() == a + b.drop_last());
        assert((a + b).last() == b.last());
    }
}

/// The entries of a single line.
pub proof fn lemma_entries_of_one(line: Text)
    ensures
        conf::nameservers_in(seq![line]) == (match conf::nameserver_in(line) {
            Some(address) => seq![address],
            None => Seq::empty(),
        }),
        conf::searches_in(seq![line]) == conf::search_in(line),
{
    assert(seq![line].drop_last() == Seq::<Text>::empty());
    reveal_with_fuel(conf::nameservers_in, 2);
    reveal_with_fuel(conf::searches_in, 2);
}

/// The `nameserver` line for an address.
pub open spec fn nameserver_line(address: Text) -> Text {
    "nameserver "@ + address + "\n"@
}

/// A `nameserver` line ends with a line feed.
proof fn lemma_nameserver_line_ends(address: Text)
    ensures
        nameserver_line(address).len() > 0,
        nameserver_line(address).last() == '\n',
{
    reveal_strlit("\n");
    reveal_strlit("nameserver ");
}

/// The `nameserver` line for an address names the address and nothing else.
proof fn lemma_nameserver_line(address: Text)
    requires
        is_address(address),
    ensures
        conf::nameservers_in(text::lines(nameserver_line(address))) == seq![address],
        conf::searches_in(text::lines(nameserver_line(address))) == Seq::<Text>::empty(),
{
    reveal_strlit("\n");
    reveal_strlit("nameserver ");
    reveal_strlit("search ");
    let line = "nameserver "@ + address;
    assert(nameserver_line(address) == line.push('\n'));
    assert forall|j: int| 0 <= j < line.len() implies line[j] != '\n' by {
        if j >= 11 {
            assert(line[j] == address[j - 11]);
        }
    }
    text_laws::one_line(line, '\n', '\r');
    assert(line.last() == address.last());
    assert(text::white_space('\r'));
    assert(text::strip_cr(line, '\r') == line);
    text_laws::trimmed_text_stays(line);
    assert(line.take(11) == "nameserver "@);
    assert(line.skip(11) == address);
    text_laws::trimmed_text_stays(address);
    assert(conf::nameserver_in(line) == Some(address));
    assert(line[0] == 'n');
    assert(!text::starts_with(line, "search "@)) by {
        if text::starts_with(line, "search "@) {
            assert(line.take(7)[0] == 's');
        }
    }
    lemma_entries_of_one(line);
}

/// The lines for nameservers are those of all but the last, then those of the last.
proof fn lemma_nameserver_lines_split(nameservers: Seq<Text>)
    requires
        nameservers.len() > 0,
    ensures
        text::lines(conf::nameserver_lines(nameservers)) == text::lines(
            conf::nameserver_lines(nameservers.drop_last()),
        ) + text::lines(nameserver_line(nameservers.last())),
        conf::nameserver_lines(nameservers).len() > 0,
        conf::nameserver_lines(nameservers).last() == '\n',
    decreases nameservers.len(),
{
    let front = conf::nameserver_lines(nameservers.drop_last());
    let line = nameserver_line(nameservers.last());
    lemma_nameserver_line_ends(nameservers.last());
    if nameservers.len() == 1 {
        assert(front == Seq::<char>::empty());
        assert(front + line == line);
        assert(text::lines(front) == Seq::<Text>::empty());
    } else {
        lemma_nameserver_lines_split(nameservers.drop_last());
        text_laws::lines_split_at_line_feed(front, line, '\n', '\r');
    }
}

/// The lines for addresses name those addresses in order, and no search domain.
proof fn lemma_nameserver_lines(nameservers: Seq<Text>)
    requires
        forall|i: int| 0 <= i < nameservers.len() ==> is_address(#[trigger] nameservers[i]),
    ensures
        conf::nameservers_in(text::lines(conf::nameserver_lines(nameservers))) == nameservers,
        conf::searches_in(text::lines(conf::nameserver_lines(nameservers)))
            == Seq::<Text>::empty(),
    decreases nameservers.len(),
{
    if nameservers.len() > 0 {
        let front = nameservers.drop_last();
        let last = nameservers.last();
        lemma_nameserver_lines(front);
        lemma_nameserver_lines_split(nameservers);
        lemma_nameserver_line(last);
        let a = text::lines(conf::nameserver_lines(front));
        let b = text::lines(nameserver_line(last));
        lemma_nameservers_add(a, b);
        lemma_searches_add(a, b);
        assert(front + seq![last] == nameservers);
    } else {
        assert(text::lines(conf::nameserver_lines(nameservers)) == Seq::<Text>::empty());
    }
}

/// The lines for nameservers name every one of them that is an address, whatever the
/// others are.
pub proof fn lemma_address_is_named(nameservers: Seq<Text>, i: int)
    requires
        0 <= i < nameservers.len(),
        is_address(nameservers[i]),
    ensures
        conf::nameservers_in(text::lines(conf::nameserver_lines(nameservers))).contains(
            nameservers[i],
        ),
    decreases nameservers.len(),
{
    lemma_nameserver_lines_split(nameservers);
    let a = text::lines(conf::nameserver_lines(nameservers.drop_last()));
    let b = text::lines(nameserver_line(nameservers.last()));
    lemma_nameservers_add(a, b);
    let x = conf::nameservers_in(a);
    let y = conf::nameservers_in(b);
    if i == nameservers.len() - 1 {
        lemma_nameserver_line(nameservers[i]);
        assert((x + y)[x.len() as int] == nameservers[i]);
    } else {
        lemma_address_is_named(nameservers.drop_last(), i);
        let k = choose|k: int| 0 <= k < x.len() && x[k] == nameservers[i];
        assert((x + y)[k] == nameservers[i]);
    }
}

/// Joining texts without line feeds gives none.
proof fn lemma_join_on_one_line(parts: Seq<Text>)
    requires
        forall|i: int| 0 <= i < parts.len() ==> !(#[trigger] parts[i]).contains('\n'),
    ensures
        !text::join(parts, " "@).contains('\n'),
    decreases parts.len(),
{
    reveal_strlit(" ");
    if parts.len() == 1 {
        assert(!parts[0].contains('\n'));
    } else if parts.len() > 1 {
        lemma_join_on_one_line(parts.drop_last());
        let front = text::join(parts.drop_last(), " "@);
        let whole = text::join(parts, " "@);
        assert(!parts[parts.len() - 1].contains('\n'));
        assert forall|j: int| 0 <= j < whole.len() implies whole[j] != '\n' by {
            if j < front.len() {
                assert(front[j] == whole[j]);
            } else if j > front.len() {
                assert(parts.last()[j - front.len() - 1] == whole[j]);
            }
        }
    }
}

/// The `search` line for domains without line feeds tells to search the words of the
/// domains, and names no nameserver.
pub proof fn lemma_search_line(domains: Seq<Text>)
    requires
        domains.len() > 0,
        forall|i: int| 0 <= i < domains.len() ==> !(#[trigger] domains[i]).contains('\n'),
        text::words(text::join(domains, " "@)).len() > 0,
    ensures
        conf::searches_in(text::lines(conf::search_line(domains))) == text::words(
            text::join(domains, " "@),
        ),
        conf::nameservers_in(text::lines(conf::search_line(domains))) == Seq::<Text>::empty(),
{
    reveal_strlit("\n");
    reveal_strlit("nameserver ");
    reveal_strlit("search ");
    let joined = text::join(domains, " "@);
    let whole = "search "@ + joined;
    assert(conf::search_line(domains) == whole.push('\n'));
    lemma_join_on_one_line(domains);
    assert forall|j: int| 0 <= j < whole.len() implies whole[j] != '\n' by {
        if j >= 7 {
            assert(whole[j] == joined[j - 7]);
        }
    }
    text_laws::one_line(whole, '\n', '\r');
    let line = text::strip_cr(whole, '\r');

    // Neither a carriage return nor other white space at the end hides a word.
    let key = "search "@.take(6);
    assert(whole == key + seq![' '] + joined);
    text_laws::words_split_at_white_space(key, ' ', joined);
    assert(text::white_space('\r'));
    if whole.last() == '\r' {
        text_laws::words_split_at_white_space(line, '\r', Seq::empty());
        assert(line + seq!['\r'] + Seq::<char>::empty() == whole);
        assert(text::words(Seq::empty()) == Seq::<Text>::empty());
    }
    assert(text::words(line) == text::words(whole));

    // The first word of the domains stands behind the keyword.
    text_laws::words_are_words(joined, 0);
    let first = text::words(joined)[0];
    assert(joined.contains(first[0]));
    let p = choose|p: int| 0 <= p < joined.len() && joined[p] == first[0];
    assert(whole[7 + p] == first[0]);
    assert(line[7 + p] == first[0]);
    assert(line[0] == 's');
    let t = text::trim(line);
    text_laws::lemma_trim_end(line);
    assert(t == text::trim_end(line));
    assert(t.len() > 7 + p);
    assert(t.take(7) == "search "@) by {
        assert forall|j: int| 0 <= j < 7 implies t[j] == "search "@[j] by {
            assert(t[j] == line[j]);
            assert(line[j] == whole[j]);
        }
    }
    assert(text::starts_with(t, "search "@));
    assert(t == key + seq![' '] + t.skip(7));
    text_laws::words_split_at_white_space(key, ' ', t.skip(7));
    let rest = text::words(t.skip(7));
    let all = text::words(joined);
    let k = text::words(key);
    assert(k + rest == k + all);
    assert(rest =~= all) by {
        assert((k + rest).skip(k.len() as int) == rest);
        assert((k + all).skip(k.len() as int) == all);
    }
    assert(!text::starts_with(t, "nameserver "@)) by {
        if text::starts_with(t, "nameserver "@) {
            assert(t.take(11)[0] == 'n');
        }
    }
    lemma_entries_of_one(line);
}

/// The lines of a `resolv.conf` with the given entries, once for `nameserver` lines and
/// once for the `search` line.
pub proof fn lemma_lines_of_entries(nameservers: Seq<Text>, domains: Seq<Text>)
    ensures
        text::lines(conf::nameserver_lines(nameservers) + conf::search_line(domains))
            == text::lines(conf::nameserver_lines(nameservers)) + text::lines(
            conf::search_line(domains),
        ),
{
    let a = conf::nameserver_lines(nameservers);
    let b = conf::search_line(domains);
    if nameservers.len() == 0 {
        assert(a + b == b);
        assert(text::lines(a) == Seq::<Text>::empty());
    } else {
        lemma_nameserver_lines_split(nameservers);
        text_laws::lines_split_at_line_feed(a, b, '\n', '\r');
    }
}

/// What is written reads back: the lines for addresses and for domains that are single
/// words name those addresses and domains in order, and nothing else.
pub proof fn rendered_entries_read_back(nameservers: Seq<Text>, domains: Seq<Text>)
    requires
        forall|i: int| 0 <= i < nameservers.len() ==> is_address(#[trigger] nameservers[i]),
        forall|i: int| 0 <= i < domains.len() ==> text_laws::is_word(#[trigger] domains[i]),
    ensures
        conf::nameservers_in(
            text::lines(conf::nameserver_lines(nameservers) + conf::search_line(domains)),
        ) == nameservers,
        conf::searches_in(
            text::lines(conf::nameserver_lines(nameservers) + conf::search_line(domains)),
        ) == domains,
{
    lemma_lines_of_entries(nameservers, domains);
    lemma_nameserver_lines(nameservers);
    let a = text::lines(conf::nameserver_lines(nameservers));
    let b = text::lines(conf::search_line(domains));
    lemma_nameservers_add(a, b);
    lemma_searches_add(a, b);
    if domains.len() == 0 {
        assert(b == Seq::<Text>::empty());
    } else {
        assert(text::white_space('\n'));
        assert forall|i: int| 0 <= i < domains.len() implies !(#[trigger] domains[i]).contains(
            '\n',
        ) by {
            assert(text_laws::is_word(domains[i]));
        }
        text_laws::joined_words_split_again(domains);
        lemma_search_line(domains);
    }
}

/// What a line names: the text behind "nameserver " without the white space around it, if
/// any is left. A line that does not start so, white space in front aside, names none.
pub proof fn only_nameserver_lines_name_nameservers(line: Text, rest: Text)
    ensures
        text::trim(line) == "nameserver "@ + rest && text::trim(rest).len() > 0
            ==> conf::nameserver_in(line) == Some(text::trim(rest)),
        text::trim(line) == "nameserver "@ + rest && text::trim(rest).len() == 0
            ==> conf::nameserver_in(line) is None,
        !text::starts_with(text::trim(line), "nameserver "@) ==> conf::nameserver_in(line) is None,
{
    text_laws::a_prefix_stands_in_front(line, "nameserver "@, rest);
    assert(("nameserver "@ + rest).skip("nameserver "@.len() as int) == rest);
}

/// What a line tells to search: the words behind "search ". A line that does not start so,
/// white space in front aside, tells to search nothing.
pub proof fn only_search_lines_name_domains(line: Text, rest: Text)
    ensures
        text::trim(line) == "search "@ + rest ==> conf::search_in(line) == text::words(rest),
        !text::starts_with(text::trim(line), "search "@) ==> conf::search_in(line)
            == Seq::<Text>::empty(),
{
    text_laws::a_prefix_stands_in_front(line, "search "@, rest);
    assert(("search "@ + rest).skip("search "@.len() as int) == rest);
}

/// A line more at the end adds what it names at the end, and takes nothing away.
pub proof fn entries_are_read_line_by_line(lines: Seq<Text>, line: Text)
    ensures
        conf::nameservers_in(lines.push(line)) == conf::nameservers_in(lines) + (
        match conf::nameserver_in(line) {
            Some(address) => seq![address],
            None => Seq::empty(),
        }),
        conf::searches_in(lines.push(line)) == conf::searches_in(lines) + conf::search_in(line),
        conf::nameservers_in(Seq::empty()) == Seq::<Text>::empty(),
        conf::searches_in(Seq::empty()) == Seq::<Text>::empty(),
{
    assert(lines.push(line) == lines + seq![line]);
    lemma_nameservers_add(lines, seq![line]);
    lemma_searches_add(lines, seq![line]);
    lemma_entries_of_one(line);
}

/// The nameservers of a file are those behind "nameserver " on some line of it, without the
/// white space around them, and no others.
pub proof fn nameservers_stand_on_nameserver_lines(lines: Seq<Text>, address: Text)
    ensures
        conf::nameservers_in(lines).contains(address) <==> address.len() > 0 && exists|k: int|
            0 <= k < lines.len() && text::starts_with(
                text::trim(#[trigger] lines[k]),
                "nameserver "@,
            ) && text::trim(text::trim(lines[k]).skip("nameserver "@.len() as int)) == address,
    decreases lines.len(),
{
    if lines.len() > 0 {
        let front = lines.drop_last();
        let line = lines.last();
        let n = lines.len() - 1;
        nameservers_stand_on_nameserver_lines(front, address);
        entries_are_read_line_by_line(front, line);
        assert(front.push(line) == lines);
        let before = conf::nameservers_in(front);
        let here = match conf::nameserver_in(line) {
            Some(a) => seq![a],
            None => Seq::empty(),
        };
        lemma_contains_in_sum(before, here, address);
        assert(forall|k: int| 0 <= k < n ==> front[k] == lines[k]);
        assert(lines[n] == line);
        if before.contains(address) {
            let k = choose|k: int|
                0 <= k < front.len() && text::starts_with(
                    text::trim(#[trigger] front[k]),
                    "nameserver "@,
                ) && text::trim(text::trim(front[k]).skip("nameserver "@.len() as int)) == address;
            assert(lines[k] == front[k]);
        }
        if here.contains(address) {
            assert(here[0] == address);
        }
        if conf::nameserver_in(line) == Some(address) {
            assert(here[0] == address);
        }
        assert(forall|k: int| 0 <= k < lines.len() && k != n ==> lines[k] == front[k]);
    }
}

/// A list that is put together holds what either part holds.
proof fn lemma_contains_in_sum(a: Seq<Text>, b: Seq<Text>, x: Text)
    ensures
        (a + b).contains(x) <==> a.contains(x) || b.contains(x),
{
    if (a + b).contains(x) {
        let i = choose|i: int| 0 <= i < (a + b).len() && (a + b)[i] == x;
        if i < a.len() {
            assert(a[i] == x);
        } else {
            assert(b[i - a.len()] == x);
        }
    }
    if a.contains(x) {
        let i = choose|i: int| 0 <= i < a.len() && a[i] == x;
        assert((a + b)[i] == x);
    }
    if b.contains(x) {
        let i = choose|i: int| 0 <= i < b.len() && b[i] == x;
        assert((a + b)[a.len() + i] == x);
    }
}

/// The search domains of a file are the words behind "search " on some line of it, and no
/// others.
pub proof fn domains_stand_on_search_lines(lines: Seq<Text>, domain: Text)
    ensures
        conf::searches_in(lines).contains(domain) <==> exists|k: int|
            0 <= k < lines.len() && text::starts_with(text::trim(#[trigger] lines[k]), "search "@)
                && text::words(text::trim(lines[k]).skip("search "@.len() as int)).contains(domain),
    decreases lines.len(),
{
    if lines.len() > 0 {
        let front = lines.drop_last();
        let line = lines.last();
        let n = lines.len() - 1;
        domains_stand_on_search_lines(front, domain);
        entries_are_read_line_by_line(front, line);
        assert(front.push(line) == lines);
        lemma_contains_in_sum(conf::searches_in(front), conf::search_in(line), domain);
        assert(lines[n] == line);
        if conf::searches_in(front).contains(domain) {
            let k = choose|k: int|
                0 <= k < front.len() && text::starts_with(
                    text::trim(#[trigger] front[k]),
                    "search "@,
                ) && text::words(text::trim(front[k]).skip("search "@.len() as int)).contains(
                    domain,
                );
            assert(lines[k] == front[k]);
        }
        assert(forall|k: int| 0 <= k < lines.len() && k != n ==> lines[k] == front[k]);
    }
}

/// An address more is a line more behind the others.
pub proof fn each_address_has_a_line(nameservers: Seq<Text>, address: Text)
    ensures
        conf::nameserver_lines(nameservers.push(address)) == conf::nameserver_lines(nameservers)
            + ("nameserver "@ + address + "\n"@),
        conf::nameserver_lines(Seq::empty()).len() == 0,
{
    assert(nameservers.push(address).drop_last() == nameservers);
}

/// All domains stand on one line, with a blank between each two: a domain more stands behind
/// the others.
pub proof fn domains_share_a_line(domains: Seq<Text>, domain: Text)
    ensures
        conf::search_line(Seq::empty()).len() == 0,
        conf::search_line(seq![domain]) == "search "@ + domain + "\n"@,
        domains.len() > 0 ==> conf::search_line(domains.push(domain)) == conf::search_line(
            domains,
        ).drop_last() + " "@ + domain + "\n"@,
{
    reveal_strlit("\n");
    assert(domains.push(domain) == domains + seq![domain]);
    text_laws::joined_lists_are_joined(domains, seq![domain], " "@);
    text_laws::joined_lists_are_joined(seq![domain], domains, " "@);
    if domains.len() > 0 {
        let one = "search "@ + text::join(domains, " "@);
        assert(conf::search_line(domains).drop_last() == one);
        assert(conf::search_line(domains.push(domain)) == one + " "@ + domain + "\n"@);
    }
}

/// A line behind which white space stands has the words of the line.
proof fn lemma_words_without_cr(line: Text)
    ensures
        text::words(text::strip_cr(line, '\r')) == text::words(line),
{
    if line.len() > 0 && line.last() == '\r' {
        let front = line.drop_last();
        assert(line == front + seq!['\r'] + Seq::<char>::empty());
        assert(text::white_space('\r'));
        text_laws::words_split_at_white_space(front, '\r', Seq::empty());
        assert(text::words(Seq::empty()) == Seq::<Text>::empty());
        assert(text::words(front) + Seq::<Text>::empty() == text::words(front));
    }
}

/// Trimming does not change the words of a text.
proof fn lemma_words_of_trimmed(s: Text)
    ensures
        text::words(text::trim(s)) == text::words(s),
{
    text::lemma_words_trim_start(s);
    text_laws::lemma_trim_end(text::trim_start(s));
}

/// The lines for texts without line feeds tell to search nothing.
pub proof fn lemma_nameserver_lines_search_nothing(nameservers: Seq<Text>)
    requires
        forall|i: int| 0 <= i < nameservers.len() ==> !(#[trigger] nameservers[i]).contains('\n'),
    ensures
        conf::searches_in(text::lines(conf::nameserver_lines(nameservers)))
            == Seq::<Text>::empty(),
    decreases nameservers.len(),
{
    if nameservers.len() == 0 {
        assert(text::lines(conf::nameserver_lines(nameservers)) == Seq::<Text>::empty());
    } else {
        let front = nameservers.drop_last();
        let address = nameservers.last();
        assert(!nameservers[nameservers.len() - 1].contains('\n'));
        assert forall|i: int| 0 <= i < front.len() implies !(#[trigger] front[i]).contains(
            '\n',
        ) by {
            assert(front[i] == nameservers[i]);
        }
        lemma_nameserver_lines_search_nothing(front);
        lemma_nameserver_lines_split(nameservers);
        reveal_strlit("\n");
        reveal_strlit("nameserver ");
        reveal_strlit("search ");
        let line = "nameserver "@ + address;
        assert(nameserver_line(address) == line.push('\n'));
        assert forall|j: int| 0 <= j < line.len() implies line[j] != '\n' by {
            if j >= 11 {
                assert(line[j] == address[j - 11]);
                assert(address.contains(address[j - 11]));
            }
        }
        text_laws::one_line(line, '\n', '\r');
        let shown = text::strip_cr(line, '\r');
        assert(shown[0] == 'n');
        let t = text::trim(shown);
        text_laws::lemma_trim_end(shown);
        assert(!text::white_space('n'));
        assert(t == text::trim_end(shown));
        assert(!text::starts_with(t, "search "@)) by {
            if text::starts_with(t, "search "@) {
                assert(t.take(7)[0] == 's');
            }
        }
        lemma_entries_of_one(shown);
        lemma_searches_add(
            text::lines(conf::nameserver_lines(front)),
            text::lines(nameserver_line(address)),
        );
    }
}

/// The line for domains without line feeds tells to search nothing but their words.
pub proof fn lemma_search_line_searches_words(domains: Seq<Text>, domain: Text)
    requires
        forall|i: int| 0 <= i < domains.len() ==> !(#[trigger] domains[i]).contains('\n'),
        conf::searches_in(text::lines(conf::search_line(domains))).contains(domain),
    ensures
        exists|i: int|
            0 <= i < domains.len() && text::words(#[trigger] domains[i]).contains(domain),
{
    if domains.len() == 0 {
        assert(text::lines(conf::search_line(domains)) == Seq::<Text>::empty());
    } else {
        reveal_strlit("\n");
        reveal_strlit("search ");
        reveal_strlit("search");
        let joined = text::join(domains, " "@);
        let line = "search "@ + joined;
        lemma_join_on_one_line(domains);
        assert(conf::search_line(domains) == line.push('\n'));
        assert forall|j: int| 0 <= j < line.len() implies line[j] != '\n' by {
            if j >= 7 {
                assert(line[j] == joined[j - 7]);
                assert(joined.contains(joined[j - 7]));
            }
        }
        text_laws::one_line(line, '\n', '\r');
        let shown = text::strip_cr(line, '\r');
        lemma_entries_of_one(shown);
        lemma_words_without_cr(line);
        lemma_words_of_trimmed(shown);
        let t = text::trim(shown);
        let rest = t.skip(7);
        assert(text::starts_with(t, "search "@));
        assert(text::white_space(' '));
        assert("search "@ == "search"@ + seq![' ']);
        text_laws::a_prefix_stands_in_front(t, "search "@, rest);
        assert(t == "search"@ + seq![' '] + rest);
        assert(line == "search"@ + seq![' '] + joined);
        text_laws::words_split_at_white_space("search"@, ' ', rest);
        text_laws::words_split_at_white_space("search"@, ' ', joined);
        let head = text::words("search"@);
        assert((head + text::words(rest)).skip(head.len() as int) == text::words(rest));
        assert((head + text::words(joined)).skip(head.len() as int) == text::words(joined));
        lemma_word_of_join(domains, domain);
    }
}

/// A word of joined texts is a word of one of them.
proof fn lemma_word_of_join(parts: Seq<Text>, word: Text)
    requires
        text::words(text::join(parts, " "@)).contains(word),
    ensures
        exists|i: int| 0 <= i < parts.len() && text::words(#[trigger] parts[i]).contains(word),
    decreases parts.len(),
{
    if parts.len() == 0 {
        assert(text::words(text::join(parts, " "@)) == Seq::<Text>::empty());
    } else {
        let front = parts.drop_last();
        text_laws::words_of_join(parts);
        lemma_contains_in_sum(
            text::words(text::join(front, " "@)),
            text::words(parts.last()),
            word,
        );
        if text::words(parts.last()).contains(word) {
            assert(text::words(parts[parts.len() - 1]).contains(word));
        } else {
            lemma_word_of_join(front, word);
            let i = choose|i: int|
                0 <= i < front.len() && text::words(#[trigger] front[i]).contains(word);
            assert(parts[i] == front[i]);
        }
    }
}

} // verus!
