use crate::text;
use crate::text::Text;
use vstd::prelude::*;
use vstd::string::StringExecFns;

verus! {

/// The `nameserver` lines for the given addresses.
pub open spec fn nameserver_lines(nameservers: Seq<Text>) -> Text
    decreases nameservers.len(),
{
    if nameservers.len() == 0 {
        Seq::empty()
    } else {
        nameserver_lines(nameservers.drop_last()) + ("nameserver "@ + nameservers.last() + "\n"@)
    }
}

/// The `search` line for the given domains, or nothing if there are none.
pub open spec fn search_line(domains: Seq<Text>) -> Text {
    if domains.len() == 0 {
        Seq::empty()
    } else {
        "search "@ + text::join(domains, " "@) + "\n"@
    }
}

/// Appends the `nameserver` lines for the given addresses.
pub fn push_nameserver_lines(content: &mut String, nameservers: &Vec<String>)
    ensures
        final(content)@ == old(content)@ + nameserver_lines(text::texts(nameservers@)),
{
    let ghost all = text::texts(nameservers@);
    let ghost start = content@;
    for i in 0..nameservers.len()
        invariant
            all == text::texts(nameservers@),
            content@ == start + nameserver_lines(all.take(i as int)),
    {
        content.append("nameserver ");
        content.append(nameservers[i].as_str());
        content.append("\n");
        assert(all.take(i + 1).drop_last() == all.take(i as int));
        assert(all.take(i + 1).last() == nameservers@[i as int]@);
    }
    assert(all.take(all.len() as int) == all);
}

/// Appends the `search` line for the given domains, if there are any.
pub fn push_search_line(content: &mut String, domains: &Vec<String>)
    ensures
        final(content)@ == old(content)@ + search_line(text::texts(domains@)),
{
    if domains.len() > 0 {
        content.append("search ");
        content.append(text::joined(domains, " ").as_str());
        content.append("\n");
    }
}

/// The nameserver that a line names, if it names one.
pub open spec fn nameserver_in(line: Text) -> Option<Text> {
    let t = text::trim(line);
    let address = text::trim(t.skip("nameserver "@.len() as int));
    if text::starts_with(t, "nameserver "@) && address.len() > 0 {
        Some(address)
    } else {
        None
    }
}

/// The domains that a line tells to search, which are none for a line that is
/// not a `search` line.
pub open spec fn search_in(line: Text) -> Seq<Text> {
    let t = text::trim(line);
    if text::starts_with(t, "search "@) {
        text::words(t.skip("search "@.len() as int))
    } else {
        Seq::empty()
    }
}

/// The nameservers that the lines name, in order.
pub open spec fn nameservers_in(lines: Seq<Text>) -> Seq<Text>
    decreases lines.len(),
{
    if lines.len() == 0 {
        Seq::empty()
    } else {
        match nameserver_in(lines.last()) {
            Some(address) => nameservers_in(lines.drop_last()).push(address),
            None => nameservers_in(lines.drop_last()),
        }
    }
}

/// The domains that the lines tell to search, in order.
pub open spec fn searches_in(lines: Seq<Text>) -> Seq<Text>
    decreases lines.len(),
{
    if lines.len() == 0 {
        Seq::empty()
    } else {
        searches_in(lines.drop_last()) + search_in(lines.last())
    }
}

/// A `search` line is no `nameserver` line.
proof fn lemma_search_or_nameserver(t: Text)
    ensures
        !(text::starts_with(t, "nameserver "@) && text::starts_with(t, "search "@)),
{
    reveal_strlit("nameserver ");
    reveal_strlit("search ");
    if text::starts_with(t, "nameserver "@) && text::starts_with(t, "search "@) {
        assert(t.take("nameserver "@.len() as int)[0] == 'n');
        assert(t.take("search "@.len() as int)[0] == 's');
    }
}

/// The nameservers and the search domains that the text of a `resolv.conf` names.
pub fn entries_of(content: &str) -> (r: (Vec<String>, Vec<String>))
    ensures
        text::texts(r.0@) == nameservers_in(text::lines(content@)),
        text::texts(r.1@) == searches_in(text::lines(content@)),
{
    let chars = text::chars_of(content);
    let lines = text::lines_of(chars.as_slice());
    let ghost all = text::lines(content@);
    let nameserver = text::chars_of("nameserver ");
    let search = text::chars_of("search ");
    let mut nameservers: Vec<String> = Vec::new();
    let mut domains: Vec<String> = Vec::new();
    for i in 0..lines.len()
        invariant
            all == text::lines(content@),
            text::pieces(lines@) == all,
            nameserver@ == "nameserver "@,
            search@ == "search "@,
            text::texts(nameservers@) == nameservers_in(all.take(i as int)),
            text::texts(domains@) == searches_in(all.take(i as int)),
    {
        let line = text::trimmed(lines[i]);
        let ghost had = text::texts(nameservers@);
        let ghost searched = text::texts(domains@);
        proof {
            assert(all[i as int] == lines@[i as int]@);
            assert(all.take(i + 1).drop_last() == all.take(i as int));
            assert(all.take(i + 1).last() == all[i as int]);
            lemma_search_or_nameserver(line@);
        }
        if text::has_prefix(line, nameserver.as_slice()) {
            let address = text::trimmed(
                vstd::slice::slice_subrange(line, nameserver.len(), line.len()),
            );
            if address.len() > 0 {
                nameservers.push(text::string_of(address));
                assert(text::texts(nameservers@) == had.push(address@));
            }
        } else if text::has_prefix(line, search.as_slice()) {
            let found = text::words_of(
                vstd::slice::slice_subrange(line, search.len(), line.len()),
            );
            let ghost listed = text::pieces(found@);
            for j in 0..found.len()
                invariant
                    listed == text::pieces(found@),
                    text::texts(domains@) == searched + listed.take(j as int),
            {
                let ghost before = text::texts(domains@);
                domains.push(text::string_of(found[j]));
                assert(listed[j as int] == found@[j as int]@);
                assert(text::texts(domains@) == before.push(listed[j as int]));
                assert(listed.take(j + 1) == listed.take(j as int).push(listed[j as int]));
            }
            assert(listed.take(listed.len() as int) == listed);
        }
    }
    assert(all.take(all.len() as int) == all);
    (nameservers, domains)
}

} // verus!
