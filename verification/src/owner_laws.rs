use crate::conf;
use crate::config::OSConfigView;
use crate::direct;
use crate::direct::RESOLV_CONF_BACKUP;
use crate::direct_laws;
use crate::mode::Host;
use crate::owner;
use crate::text;
use crate::text::Text;
use crate::text_laws;
use vstd::prelude::*;
use vstd::utf8;

verus! {

/// The owner is one of "systemd-resolved", "NetworkManager" and "resolvconf", or unknown.
pub proof fn owners_are_known(bytes: Seq<u8>)
    ensures
        ({
            let who = owner::owner(bytes);
            ||| who == "systemd-resolved"@
            ||| who == "NetworkManager"@
            ||| who == "resolvconf"@
            ||| who.len() == 0
        }),
{
    let lines = text::byte_lines(bytes);
    lemma_last_named(lines.take(owner::header_len(lines)));
}

/// The owner named last is one of the known ones.
proof fn lemma_last_named(lines: Seq<Seq<u8>>)
    ensures
        ({
            let who = owner::last_named(lines);
            ||| who == "systemd-resolved"@
            ||| who == "NetworkManager"@
            ||| who == "resolvconf"@
            ||| who.len() == 0
        }),
    decreases lines.len(),
{
    if lines.len() > 0 {
        lemma_last_named(lines.drop_last());
    }
}

/// Only the header counts: two files whose lines are the same up to one that is neither
/// blank nor a comment have the same owner.
pub proof fn only_the_header_counts(a: Seq<u8>, b: Seq<u8>, k: int)
    requires
        0 <= k < text::byte_lines(a).len(),
        k < text::byte_lines(b).len(),
        text::byte_lines(a).take(k + 1) == text::byte_lines(b).take(k + 1),
        !owner::header_line(text::byte_lines(a)[k]),
    ensures
        owner::owner(a) == owner::owner(b),
{
    let x = text::byte_lines(a);
    let y = text::byte_lines(b);
    lemma_header_ends_by(x, k);
    let h = owner::header_len(x);
    lemma_header(x);
    assert forall|j: int| 0 <= j <= k implies x[j] == y[j] by {
        assert(x.take(k + 1)[j] == y.take(k + 1)[j]);
    }
    owner::lemma_header_len(y, h);
    assert(x.take(h) == y.take(h));
}

/// The header is made of header lines and ends at a line that is none.
proof fn lemma_header(lines: Seq<Seq<u8>>)
    ensures
        0 <= owner::header_len(lines) <= lines.len(),
        forall|j: int|
            0 <= j < owner::header_len(lines) ==> owner::header_line(#[trigger] lines[j]),
        owner::header_len(lines) < lines.len() ==> !owner::header_line(
            lines[owner::header_len(lines)],
        ),
    decreases lines.len(),
{
    if lines.len() > 0 && owner::header_line(lines[0]) {
        lemma_header(lines.drop_first());
        assert forall|j: int| 0 <= j < owner::header_len(lines) implies owner::header_line(
            #[trigger] lines[j],
        ) by {
            if j > 0 {
                assert(lines.drop_first()[j - 1] == lines[j]);
            }
        }
    }
}

/// The header does not reach past a line that is none of its own.
proof fn lemma_header_ends_by(lines: Seq<Seq<u8>>, k: int)
    requires
        0 <= k < lines.len(),
        !owner::header_line(lines[k]),
    ensures
        owner::header_len(lines) <= k,
{
    lemma_header(lines);
    if owner::header_len(lines) > k {
        assert(owner::header_line(lines[k]));
    }
}

/// Texts put together are encoded one after the other.
proof fn lemma_encode_add(a: Text, b: Text)
    ensures
        utf8::encode_utf8(a + b) == utf8::encode_utf8(a) + utf8::encode_utf8(b),
    decreases a.len(),
{
    if a.len() == 0 {
        assert(a + b == b);
    } else {
        lemma_encode_add(a.drop_first(), b);
        assert((a + b).drop_first() == a.drop_first() + b);
        assert((a + b)[0] == a[0]);
    }
}

/// A line of ASCII characters is encoded as a line.
proof fn lemma_ascii_line(line: Text, rest: Text)
    requires
        utf8::is_ascii_chars(line),
        line.len() > 0,
        !line.contains('\n'),
        line.last() != '\r',
    ensures
        text::byte_lines(utf8::encode_utf8(line.push('\n') + rest)) == seq![
            utf8::encode_utf8(line),
        ] + text::byte_lines(utf8::encode_utf8(rest)),
{
    let bytes = utf8::encode_utf8(line);
    let end = seq!['\n'];
    utf8::is_ascii_chars_encode_utf8(line);
    utf8::is_ascii_chars_encode_utf8(end);
    assert(utf8::encode_utf8(end)[0] == end[0] as u8);
    assert(utf8::encode_utf8(end) == seq![10u8]);
    assert(line.push('\n') == line + end);
    lemma_encode_add(line, end);
    assert(utf8::encode_utf8(line.push('\n')) == bytes.push(10u8));
    lemma_encode_add(line.push('\n'), rest);
    assert forall|j: int| 0 <= j < bytes.len() implies bytes[j] != 10u8 by {
        assert(bytes[j] == line[j] as u8);
        assert(line[j] != '\n');
    }
    text_laws::one_line(bytes, 10u8, 13u8);
    text_laws::lines_split_at_line_feed(
        bytes.push(10u8),
        utf8::encode_utf8(rest),
        10u8,
        13u8,
    );
    assert(bytes.last() == line.last() as u8);
    assert(text::strip_cr(bytes, 13u8) == bytes);
}

/// A comment is a header line, and its text is the comment.
proof fn lemma_comment_line(line: Text)
    requires
        line.len() > 0,
        line[0] == '#',
        !text::white_space(line.last()),
    ensures
        owner::header_line(utf8::encode_utf8(line)),
        owner::line_text(utf8::encode_utf8(line)) == line,
{
    utf8::encode_utf8_valid_utf8(line);
    utf8::encode_utf8_decode_utf8(line);
    assert(!text::white_space('#'));
    text_laws::trimmed_text_stays(line);
}

/// A line that starts with an ASCII letter is no header line.
proof fn lemma_letter_line(line: Seq<u8>)
    requires
        line.len() > 0,
        0x61 <= line[0] <= 0x7a,
    ensures
        !owner::header_line(line),
{
    if utf8::valid_utf8(line) {
        let s = utf8::decode_utf8(line);
        let b = line[0];
        assert(0x61 <= b <= 0x7a ==> (b & 0x7F) == b) by (bit_vector);
        assert(utf8::decode_first_scalar(line) == b as u32);
        assert(s[0] == b as u32 as char);
        assert(!text::white_space(s[0]));
        text_laws::lemma_trim_end(s);
        let t = text::trim(s);
        assert(t == text::trim_end(s));
        assert(t.len() > 0);
        assert(t[0] == s[0]);
        assert(s[0] != '#');
    }
}

/// A text that starts with an ASCII letter has a first line that is no header line.
proof fn lemma_letter_first(rest: Text)
    requires
        rest.len() > 0,
        'a' <= rest[0] <= 'z',
    ensures
        text::byte_lines(utf8::encode_utf8(rest)).len() > 0,
        !owner::header_line(text::byte_lines(utf8::encode_utf8(rest))[0]),
{
    let bytes = utf8::encode_utf8(rest);
    let first = seq![rest[0]];
    assert(rest == first + rest.drop_first());
    lemma_encode_add(first, rest.drop_first());
    utf8::is_ascii_chars_encode_utf8(first);
    assert(utf8::encode_utf8(first)[0] == first[0] as u8);
    assert(bytes[0] == rest[0] as u8);
    text::lemma_first_index(bytes, 10u8);
    let k = text::first_index(bytes, 10u8);
    assert(k > 0);
    let line = text::byte_lines(bytes)[0];
    assert(line.len() > 0 && line[0] == bytes[0]) by {
        if k < bytes.len() {
            assert(line == text::strip_cr(bytes.take(k), 13u8));
            if k == 1 {
                assert(bytes.take(k).last() == bytes[0]);
            }
        } else {
            assert(line == bytes);
        }
    }
    lemma_letter_line(line);
}

/// A text that lacks a character does not contain a text that has it.
proof fn lemma_not_contained(s: Text, p: Text, k: int)
    requires
        0 <= k < p.len(),
        !s.contains(p[k]),
    ensures
        !text::contains(s, p),
{
    if text::contains(s, p) {
        let i = choose|i: int| text::stands_at(s, p, i);
        assert(s.subrange(i, i + p.len())[k] == s[i + k]);
        assert(s.contains(s[i + k]));
    }
}

/// The comments of a file that the manager wrote name no owner.
proof fn lemma_our_comments_name_no_owner()
    ensures
        owner::named_owner(direct_laws::first_comment()) is None,
        owner::named_owner(direct_laws::second_comment()) is None,
{
    reveal_strlit("# Added by easytier");
    reveal_strlit("# Original resolv.conf backed up to ");
    reveal_strlit("/etc/resolv.conf.easytier.bak");
    reveal_strlit("systemd-resolved");
    reveal_strlit("NetworkManager");
    reveal_strlit("resolvconf");
    let one = direct_laws::first_comment();
    let two = direct_laws::second_comment();
    lemma_not_contained(one, "systemd-resolved"@, 5);
    lemma_not_contained(one, "NetworkManager"@, 0);
    lemma_not_contained(one, "resolvconf"@, 5);
    lemma_not_contained(two, "systemd-resolved"@, 5);
    lemma_not_contained(two, "NetworkManager"@, 0);
    let a = "# Original resolv.conf backed up to "@;
    let b = RESOLV_CONF_BACKUP@;
    assert(forall|j: int, k: int|
        0 <= j < k < a.len() && k == j + 1 && a[j] == 'v' ==> a[k] == '.');
    assert(forall|j: int, k: int|
        0 <= j < k < b.len() && k == j + 1 && b[j] == 'v' ==> b[k] == '.');
    if text::contains(two, "resolvconf"@) {
        let i = choose|i: int| text::stands_at(two, "resolvconf"@, i);
        let part = two.subrange(i, i + 10);
        assert(part[5] == 'v' && part[6] == 'c');
        assert(two[i + 5] == 'v' && two[i + 6] == 'c');
        if i + 6 < a.len() {
            assert(a[i + 5] == 'v' && a[i + 6] == 'c');
        } else if i + 5 >= a.len() {
            assert(b[i + 5 - a.len()] == 'v' && b[i + 6 - a.len()] == 'c');
        }
    }
}

/// A file that the direct manager wrote belongs to none of the known owners, whatever was
/// configured and whatever was there before.
pub proof fn written_files_have_no_owner(cfg: OSConfigView, conf_text: Option<Text>)
    ensures
        owner::owner(utf8::encode_utf8(direct::new_conf(cfg, conf_text))) == Seq::<char>::empty(),
{
    let nameservers = direct::merged_nameservers(
        cfg.nameservers,
        direct::kept_nameservers(conf_text),
    );
    let domains = direct::merged_domains(
        text::trim_dots_all(cfg.search_domains),
        direct::kept_domains(conf_text),
    );
    let one = direct_laws::first_comment();
    let two = direct_laws::second_comment();
    let rest = conf::nameserver_lines(nameservers) + conf::search_line(domains);
    let content = direct::new_conf(cfg, conf_text);
    direct_laws::lemma_preamble();
    assert(content == one.push('\n') + (two.push('\n') + rest));
    assert(utf8::is_ascii_chars(one) && utf8::is_ascii_chars(two)) by {
        reveal_strlit("# Added by easytier");
        reveal_strlit("# Original resolv.conf backed up to ");
        reveal_strlit("/etc/resolv.conf.easytier.bak");
    }
    assert(text::white_space('\r'));
    lemma_ascii_line(one, two.push('\n') + rest);
    lemma_ascii_line(two, rest);
    lemma_comment_line(one);
    lemma_comment_line(two);
    lemma_our_comments_name_no_owner();
    let lines = text::byte_lines(utf8::encode_utf8(content));
    let tail = text::byte_lines(utf8::encode_utf8(rest));
    assert(lines == seq![utf8::encode_utf8(one), utf8::encode_utf8(two)] + tail);
    if rest.len() == 0 {
        assert(utf8::encode_utf8(rest) == Seq::<u8>::empty());
        assert(tail == Seq::<Seq<u8>>::empty());
    } else {
        lemma_entries_start_with_a_letter(nameservers, domains);
        lemma_letter_first(rest);
        assert(lines[2] == tail[0]);
    }
    assert forall|j: int| 0 <= j < 2 implies owner::header_line(#[trigger] lines[j]) by {}
    owner::lemma_header_len(lines, 2);
    let head = lines.take(2);
    assert(head.last() == utf8::encode_utf8(two));
    assert(head.drop_last() == seq![utf8::encode_utf8(one)]);
    assert(seq![utf8::encode_utf8(one)].drop_last() == Seq::<Seq<u8>>::empty());
    reveal_with_fuel(owner::last_named, 3);
}

/// The entries of a `resolv.conf` start with a keyword.
proof fn lemma_entries_start_with_a_letter(nameservers: Seq<Text>, domains: Seq<Text>)
    ensures
        ({
            let rest = conf::nameserver_lines(nameservers) + conf::search_line(domains);
            rest.len() > 0 ==> 'a' <= rest[0] <= 'z'
        }),
    decreases nameservers.len(),
{
    reveal_strlit("nameserver ");
    reveal_strlit("search ");
    let lines = conf::nameserver_lines(nameservers);
    if nameservers.len() > 0 {
        let front = nameservers.drop_last();
        lemma_entries_start_with_a_letter(front, Seq::empty());
        let before = conf::nameserver_lines(front);
        assert(before + conf::search_line(Seq::empty()) == before);
        if before.len() > 0 {
            assert(lines[0] == before[0]);
        } else {
            assert(lines[0] == 'n');
        }
        assert((lines + conf::search_line(domains))[0] == lines[0]);
    } else {
        assert(lines + conf::search_line(domains) == conf::search_line(domains));
    }
}

/// A system whose `resolv.conf` the direct manager wrote stays in direct mode.
pub proof fn direct_mode_is_stable(host: Host, cfg: OSConfigView, conf_text: Option<Text>)
    requires
        host.resolv_conf == Ok::<Seq<u8>, Text>(
            utf8::encode_utf8(direct::new_conf(cfg, conf_text)),
        ),
    ensures
        host.mode() == Ok::<Text, crate::mode::DetectErrorView>("direct"@),
{
    written_files_have_no_owner(cfg, conf_text);
    reveal_strlit("systemd-resolved");
    reveal_strlit("NetworkManager");
    reveal_strlit("resolvconf");
    assert("systemd-resolved"@.len() > 0);
    assert("NetworkManager"@.len() > 0);
    assert("resolvconf"@.len() > 0);
}

/// What a comment names: the name of systemd-resolved if it holds that, else the name of
/// NetworkManager if it holds that, else that of resolvconf if it holds that, else none.
pub proof fn comments_name_what_they_hold(comment: Text)
    ensures
        text::contains(comment, "systemd-resolved"@) ==> owner::named_owner(comment) == Some(
            "systemd-resolved"@,
        ),
        !text::contains(comment, "systemd-resolved"@) && text::contains(
            comment,
            "NetworkManager"@,
        ) ==> owner::named_owner(comment) == Some("NetworkManager"@),
        !text::contains(comment, "systemd-resolved"@) && !text::contains(
            comment,
            "NetworkManager"@,
        ) && text::contains(comment, "resolvconf"@) ==> owner::named_owner(comment) == Some(
            "resolvconf"@,
        ),
        !text::contains(comment, "systemd-resolved"@) && !text::contains(
            comment,
            "NetworkManager"@,
        ) && !text::contains(comment, "resolvconf"@) ==> owner::named_owner(comment) is None,
        owner::named_owner(comment) matches Some(name) ==> text::contains(comment, name),
{
}

/// The last of the first `n` lines to name an owner is at `i`.
proof fn lemma_last_named_is(lines: Seq<Seq<u8>>, n: int, i: int)
    requires
        0 <= i < n <= lines.len(),
        owner::named_owner(owner::line_text(lines[i])) is Some,
        forall|k: int|
            i < k < n ==> owner::named_owner(owner::line_text(#[trigger] lines[k])) is None,
    ensures
        Some(owner::last_named(lines.take(n))) == owner::named_owner(owner::line_text(lines[i])),
    decreases n,
{
    assert(lines.take(n).last() == lines[n - 1]);
    assert(lines.take(n).drop_last() == lines.take(n - 1));
    if i < n - 1 {
        lemma_last_named_is(lines, n - 1, i);
    }
}

/// None of the first `n` lines names an owner.
proof fn lemma_none_named(lines: Seq<Seq<u8>>, n: int)
    requires
        0 <= n <= lines.len(),
        forall|k: int|
            0 <= k < n ==> owner::named_owner(owner::line_text(#[trigger] lines[k])) is None,
    ensures
        owner::last_named(lines.take(n)).len() == 0,
    decreases n,
{
    if n > 0 {
        assert(lines.take(n).last() == lines[n - 1]);
        assert(lines.take(n).drop_last() == lines.take(n - 1));
        lemma_none_named(lines, n - 1);
    }
}

/// The owner is the one that a line names if that line and all before it are UTF-8 and blank
/// or comments, and no later line for which this holds too names one.
pub proof fn the_last_name_in_the_header_is_the_owner(bytes: Seq<u8>, i: int)
    requires
        0 <= i < text::byte_lines(bytes).len(),
        forall|j: int|
            0 <= j <= i ==> utf8::valid_utf8(#[trigger] text::byte_lines(bytes)[j]) && {
                let t = text::trim(utf8::decode_utf8(text::byte_lines(bytes)[j]));
                t.len() == 0 || t[0] == '#'
            },
        owner::named_owner(text::trim(utf8::decode_utf8(text::byte_lines(bytes)[i]))) is Some,
        forall|k: int|
            i < k < text::byte_lines(bytes).len() && (forall|j: int|
                i < j <= k ==> utf8::valid_utf8(#[trigger] text::byte_lines(bytes)[j]) && {
                    let t = text::trim(utf8::decode_utf8(text::byte_lines(bytes)[j]));
                    t.len() == 0 || t[0] == '#'
                }) ==> owner::named_owner(
                text::trim(utf8::decode_utf8(#[trigger] text::byte_lines(bytes)[k])),
            ) is None,
    ensures
        Some(owner::owner(bytes)) == owner::named_owner(
            text::trim(utf8::decode_utf8(text::byte_lines(bytes)[i])),
        ),
{
    let lines = text::byte_lines(bytes);
    let h = owner::header_len(lines);
    lemma_header(lines);
    assert(i < h) by {
        if h <= i {
            assert(utf8::valid_utf8(lines[h]));
        }
    }
    assert forall|k: int| i < k < h implies owner::named_owner(
        owner::line_text(#[trigger] lines[k]),
    ) is None by {
        assert forall|j: int| i < j <= k implies utf8::valid_utf8(#[trigger] lines[j]) && {
            let t = text::trim(utf8::decode_utf8(lines[j]));
            t.len() == 0 || t[0] == '#'
        } by {
            assert(owner::header_line(lines[j]));
        }
    }
    lemma_last_named_is(lines, h, i);
}

/// There is no owner where no line names one that, with all before it, is UTF-8 and blank or
/// a comment.
pub proof fn without_a_name_in_the_header_there_is_no_owner(bytes: Seq<u8>)
    requires
        forall|k: int|
            0 <= k < text::byte_lines(bytes).len() && (forall|j: int|
                0 <= j <= k ==> utf8::valid_utf8(#[trigger] text::byte_lines(bytes)[j]) && {
                    let t = text::trim(utf8::decode_utf8(text::byte_lines(bytes)[j]));
                    t.len() == 0 || t[0] == '#'
                }) ==> owner::named_owner(
                text::trim(utf8::decode_utf8(#[trigger] text::byte_lines(bytes)[k])),
            ) is None,
    ensures
        owner::owner(bytes).len() == 0,
{
    let lines = text::byte_lines(bytes);
    let h = owner::header_len(lines);
    lemma_header(lines);
    assert forall|k: int| 0 <= k < h implies owner::named_owner(
        owner::line_text(#[trigger] lines[k]),
    ) is None by {
        assert forall|j: int| 0 <= j <= k implies utf8::valid_utf8(#[trigger] lines[j]) && {
            let t = text::trim(utf8::decode_utf8(lines[j]));
            t.len() == 0 || t[0] == '#'
        } by {
            assert(owner::header_line(lines[j]));
        }
    }
    lemma_none_named(lines, h);
}

} // verus!
