use crate::conf;
use crate::conf_laws;
use crate::config::OSConfigView;
use crate::direct;
use crate::direct::{FileActionView, FilesSeenView, RESOLV_CONF_BACKUP, RESOLV_CONF_HEADER};
use crate::text;
use crate::text::Text;
use crate::text_laws;
use vstd::prelude::*;

verus! {

/// The nameservers in use are the configured ones first, then the ones to keep that are
/// not among them: every one of both is in use, and no other is.
pub proof fn nameservers_are_merged(configured: Seq<Text>, kept: Seq<Text>)
    ensures
        configured.is_prefix_of(direct::merged_nameservers(configured, kept)),
        forall|address: Text| #[trigger]
            direct::merged_nameservers(configured, kept).contains(address) <==> (
            configured.contains(address) || kept.contains(address)),
{
    let fresh = |address: Text| !configured.contains(address);
    let rest = kept.filter(fresh);
    let all = direct::merged_nameservers(configured, kept);
    assert(configured == all.subrange(0, configured.len() as int));
    assert forall|address: Text| #[trigger]
        all.contains(address) <==> (configured.contains(address) || kept.contains(address)) by {
        if all.contains(address) {
            let i = choose|i: int| 0 <= i < all.len() && all[i] == address;
            if i >= configured.len() {
                assert(rest[i - configured.len()] == address);
                kept.lemma_filter_contains_rev(fresh, address);
            }
        }
        if configured.contains(address) {
            let i = choose|i: int| 0 <= i < configured.len() && configured[i] == address;
            assert(all[i] == address);
        } else if kept.contains(address) {
            let i = choose|i: int| 0 <= i < kept.len() && kept[i] == address;
            kept.lemma_filter_contains(fresh, i);
            let j = choose|j: int| 0 <= j < rest.len() && rest[j] == address;
            assert(all[configured.len() + j] == address);
        }
    }
}

/// The domains in use are the configured ones first, then the ones to keep, each without
/// the dots at its end: every one of both is in use, and no other is. None that is kept
/// occurs twice.
pub proof fn domains_are_merged(domains: Seq<Text>, further: Seq<Text>)
    ensures
        domains.is_prefix_of(direct::merged_domains(domains, further)),
        forall|domain: Text| #[trigger]
            direct::merged_domains(domains, further).contains(domain) <==> (domains.contains(domain)
                || text::trim_dots_all(further).contains(domain)),
        forall|i: int, j: int|
            domains.len() <= j < direct::merged_domains(domains, further).len() && 0 <= i < j
                ==> direct::merged_domains(domains, further)[i] != direct::merged_domains(
                domains,
                further,
            )[j],
    decreases further.len(),
{
    let all = direct::merged_domains(domains, further);
    let names = text::trim_dots_all(further);
    if further.len() == 0 {
        assert(all == domains);
        assert(names == Seq::<Text>::empty());
        assert(domains == domains.subrange(0, domains.len() as int));
    } else {
        let front = further.drop_last();
        let before = direct::merged_domains(domains, front);
        let domain = text::trim_dots(further.last());
        domains_are_merged(domains, front);
        assert(domains == all.subrange(0, domains.len() as int)) by {
            assert(before.subrange(0, domains.len() as int) == all.subrange(
                0,
                domains.len() as int,
            ));
        }
        assert(names == text::trim_dots_all(front).push(domain));
        assert forall|d: Text| #[trigger]
            all.contains(d) <==> (domains.contains(d) || names.contains(d)) by {
            let old = text::trim_dots_all(front);
            assert(names[old.len() as int] == domain);
            assert(old.contains(d) ==> names.contains(d)) by {
                if old.contains(d) {
                    let k = choose|k: int| 0 <= k < old.len() && old[k] == d;
                    assert(names[k] == d);
                }
            }
            assert(names.contains(d) ==> old.contains(d) || d == domain) by {
                if names.contains(d) {
                    let k = choose|k: int| 0 <= k < names.len() && names[k] == d;
                    if k < old.len() {
                        assert(old[k] == d);
                    }
                }
            }
            if !before.contains(domain) {
                assert(all == before.push(domain));
                assert(all[before.len() as int] == domain);
                assert(before.contains(d) ==> all.contains(d)) by {
                    if before.contains(d) {
                        let k = choose|k: int| 0 <= k < before.len() && before[k] == d;
                        assert(all[k] == d);
                    }
                }
                assert(all.contains(d) ==> before.contains(d) || d == domain) by {
                    if all.contains(d) {
                        let k = choose|k: int| 0 <= k < all.len() && all[k] == d;
                        if k < before.len() {
                            assert(before[k] == d);
                        }
                    }
                }
            }
        }
    }
}

/// The first line of the new file, without its line feed.
pub open spec fn first_comment() -> Text {
    "# Added by easytier"@
}

/// The second line of the new file, without its line feed.
pub open spec fn second_comment() -> Text {
    "# Original resolv.conf backed up to "@ + RESOLV_CONF_BACKUP@
}

/// The new file starts with two comments of one line each.
pub proof fn lemma_preamble()
    ensures
        direct::preamble() == first_comment().push('\n') + second_comment().push('\n'),
        !first_comment().contains('\n'),
        !second_comment().contains('\n'),
        first_comment()[0] == '#',
        second_comment()[0] == '#',
        first_comment().len() > 0,
        second_comment().len() > 0,
        !text::white_space(first_comment().last()),
        !text::white_space(second_comment().last()),
{
    reveal_strlit("# Added by easytier\n");
    reveal_strlit("# Added by easytier");
    reveal_strlit("# Original resolv.conf backed up to ");
    reveal_strlit("/etc/resolv.conf.easytier.bak");
    reveal_strlit("\n");
    assert(RESOLV_CONF_HEADER@ == first_comment().push('\n'));
    assert(direct::preamble() == first_comment().push('\n') + second_comment().push('\n'));
}

/// A comment names no nameserver and no search domain.
proof fn lemma_comment_has_no_entries(line: Text)
    requires
        line.len() > 0,
        line[0] == '#',
    ensures
        conf::nameserver_in(line) is None,
        conf::search_in(line) == Seq::<Text>::empty(),
{
    reveal_strlit("nameserver ");
    reveal_strlit("search ");
    let t = text::trim(line);
    text_laws::lemma_trim_end(line);
    assert(!text::white_space('#'));
    assert(t == text::trim_end(line));
    assert(t.len() > 0 ==> t[0] == '#');
    if text::starts_with(t, "nameserver "@) {
        assert(t.take(11)[0] == 'n');
    }
    if text::starts_with(t, "search "@) {
        assert(t.take(7)[0] == 's');
    }
}

/// The entries of the new file are those of its `nameserver` and `search` lines.
proof fn lemma_entries_of_new_conf(nameservers: Seq<Text>, domains: Seq<Text>)
    ensures
        ({
            let content = direct::preamble() + conf::nameserver_lines(nameservers)
                + conf::search_line(domains);
            let entries = conf::nameserver_lines(nameservers) + conf::search_line(domains);
            &&& conf::nameservers_in(text::lines(content)) == conf::nameservers_in(
                text::lines(entries),
            )
            &&& conf::searches_in(text::lines(content)) == conf::searches_in(text::lines(entries))
        }),
{
    lemma_preamble();
    let entries = conf::nameserver_lines(nameservers) + conf::search_line(domains);
    let content = direct::preamble() + conf::nameserver_lines(nameservers) + conf::search_line(
        domains,
    );
    let one = first_comment().push('\n');
    let two = second_comment().push('\n');
    assert(content == one + (two + entries));
    text_laws::lines_split_at_line_feed(one, two + entries, '\n', '\r');
    text_laws::lines_split_at_line_feed(two, entries, '\n', '\r');
    text_laws::one_line(first_comment(), '\n', '\r');
    text_laws::one_line(second_comment(), '\n', '\r');
    assert(text::white_space('\r'));
    assert(text::strip_cr(first_comment(), '\r') == first_comment());
    assert(text::strip_cr(second_comment(), '\r') == second_comment());
    let a = seq![first_comment()];
    let b = seq![second_comment()];
    let c = text::lines(entries);
    assert(text::lines(content) == a + (b + c));
    conf_laws::lemma_nameservers_add(a, b + c);
    conf_laws::lemma_nameservers_add(b, c);
    conf_laws::lemma_searches_add(a, b + c);
    conf_laws::lemma_searches_add(b, c);
    lemma_comment_has_no_entries(first_comment());
    lemma_comment_has_no_entries(second_comment());
    conf_laws::lemma_entries_of_one(first_comment());
    conf_laws::lemma_entries_of_one(second_comment());
}

/// The nameservers that lines name are addresses.
proof fn lemma_named_are_addresses(lines: Seq<Text>, i: int)
    requires
        forall|k: int| 0 <= k < lines.len() ==> !(#[trigger] lines[k]).contains('\n'),
        0 <= i < conf::nameservers_in(lines).len(),
    ensures
        conf_laws::is_address(conf::nameservers_in(lines)[i]),
    decreases lines.len(),
{
    let front = conf::nameservers_in(lines.drop_last());
    if i < front.len() {
        lemma_named_are_addresses(lines.drop_last(), i);
    } else {
        let line = lines.last();
        assert(!lines[lines.len() - 1].contains('\n'));
        let t = text::trim(line);
        let rest = t.skip("nameserver "@.len() as int);
        let address = text::trim(rest);
        assert(conf::nameservers_in(lines)[i] == address);
        text_laws::trimmed_text_is_trimmed(line);
        text_laws::trimmed_text_is_trimmed(rest);
        assert forall|j: int| 0 <= j < address.len() implies address[j] != '\n' by {
            assert(rest.contains(address[j]));
            let k = choose|k: int| 0 <= k < rest.len() && rest[k] == address[j];
            assert(t["nameserver "@.len() + k] == address[j]);
        }
    }
}

/// The domains that lines tell to search are single words.
proof fn lemma_searched_are_words(lines: Seq<Text>, i: int)
    requires
        0 <= i < conf::searches_in(lines).len(),
    ensures
        text_laws::is_word(conf::searches_in(lines)[i]),
    decreases lines.len(),
{
    let front = conf::searches_in(lines.drop_last());
    if i < front.len() {
        lemma_searched_are_words(lines.drop_last(), i);
    } else {
        let t = text::trim(lines.last());
        text_laws::words_are_words(t.skip("search "@.len() as int), i - front.len());
    }
}

/// No line of a text holds a line feed.
proof fn lemma_lines_hold_no_line_feed(content: Text)
    ensures
        forall|k: int|
            0 <= k < text::lines(content).len() ==> !(#[trigger] text::lines(content)[k]).contains(
                '\n',
            ),
{
    assert forall|k: int| 0 <= k < text::lines(content).len() implies !(#[trigger] text::lines(
        content,
    )[k]).contains('\n') by {
        let line = text::lines(content)[k];
        if line.contains('\n') {
            let j = choose|j: int| 0 <= j < line.len() && line[j] == '\n';
            text_laws::lines_hold_no_line_feed(content, '\n', '\r', k, j);
        }
    }
}

/// The nameservers to keep are addresses.
proof fn lemma_kept_are_addresses(conf_text: Option<Text>, i: int)
    requires
        0 <= i < direct::kept_nameservers(conf_text).len(),
    ensures
        conf_laws::is_address(direct::kept_nameservers(conf_text)[i]),
{
    let content = conf_text->0;
    lemma_lines_hold_no_line_feed(content);
    lemma_named_are_addresses(text::lines(content), i);
}

/// Existing nameservers are preserved, so that name lookups on the internet are not
/// disrupted: every nameserver that a foreign `resolv.conf` names, the file that replaces
/// it names too, whatever is configured.
pub proof fn existing_nameservers_are_preserved(cfg: OSConfigView, content: Text, address: Text)
    requires
        !direct::is_ours(content),
        conf::nameservers_in(text::lines(content)).contains(address),
    ensures
        conf::nameservers_in(text::lines(direct::new_conf(cfg, Some(content)))).contains(address),
{
    let kept = direct::kept_nameservers(Some(content));
    let nameservers = direct::merged_nameservers(cfg.nameservers, kept);
    let domains = direct::merged_domains(
        text::trim_dots_all(cfg.search_domains),
        direct::kept_domains(Some(content)),
    );
    let k = choose|k: int| 0 <= k < kept.len() && kept[k] == address;
    lemma_kept_are_addresses(Some(content), k);
    nameservers_are_merged(cfg.nameservers, kept);
    assert(nameservers.contains(address));
    let i = choose|i: int| 0 <= i < nameservers.len() && nameservers[i] == address;
    conf_laws::lemma_address_is_named(nameservers, i);
    lemma_entries_of_new_conf(nameservers, domains);
    conf_laws::lemma_lines_of_entries(nameservers, domains);
    let a = text::lines(conf::nameserver_lines(nameservers));
    let b = text::lines(conf::search_line(domains));
    conf_laws::lemma_nameservers_add(a, b);
    let x = conf::nameservers_in(a);
    let y = conf::nameservers_in(b);
    let j = choose|j: int| 0 <= j < x.len() && x[j] == address;
    assert((x + y)[j] == address);
}

/// Trimming dots keeps a text on one line.
proof fn lemma_trim_dots_on_one_line(s: Text)
    requires
        !s.contains('\n'),
    ensures
        !text::trim_dots(s).contains('\n'),
{
    text_laws::dots_are_trimmed(s);
    let t = text::trim_dots(s);
    assert forall|j: int| 0 <= j < t.len() implies t[j] != '\n' by {
        assert(s[j] == t[j]);
    }
}

/// The domains in use stand on one line if the configured ones do.
proof fn lemma_domains_on_one_line(cfg: OSConfigView, conf_text: Option<Text>)
    requires
        forall|i: int|
            0 <= i < cfg.search_domains.len() ==> !(#[trigger] cfg.search_domains[i]).contains(
                '\n',
            ),
    ensures
        ({
            let domains = direct::merged_domains(
                text::trim_dots_all(cfg.search_domains),
                direct::kept_domains(conf_text),
            );
            forall|i: int| 0 <= i < domains.len() ==> !(#[trigger] domains[i]).contains('\n')
        }),
{
    let configured = text::trim_dots_all(cfg.search_domains);
    let kept = direct::kept_domains(conf_text);
    let domains = direct::merged_domains(configured, kept);
    domains_are_merged(configured, kept);
    assert forall|i: int| 0 <= i < domains.len() implies !(#[trigger] domains[i]).contains(
        '\n',
    ) by {
        let d = domains[i];
        assert(domains.contains(d));
        if configured.contains(d) {
            let j = choose|j: int| 0 <= j < configured.len() && configured[j] == d;
            assert(!cfg.search_domains[j].contains('\n'));
            lemma_trim_dots_on_one_line(cfg.search_domains[j]);
        } else {
            let names = text::trim_dots_all(kept);
            let j = choose|j: int| 0 <= j < names.len() && names[j] == d;
            lemma_searched_are_words(text::lines(conf_text->0), j);
            assert(text::white_space('\n'));
            assert(!kept[j].contains('\n'));
            lemma_trim_dots_on_one_line(kept[j]);
        }
    }
}

/// Existing search domains are preserved: every domain that a foreign `resolv.conf` tells
/// to search, and that is more than dots, the file that replaces it tells to search too,
/// without the dots at its end. The configured domains must not hold line feeds, as one of
/// them would cut the line.
pub proof fn existing_search_domains_are_preserved(
    cfg: OSConfigView,
    content: Text,
    domain: Text,
)
    requires
        forall|i: int|
            0 <= i < cfg.search_domains.len() ==> !(#[trigger] cfg.search_domains[i]).contains(
                '\n',
            ),
        !direct::is_ours(content),
        conf::searches_in(text::lines(content)).contains(domain),
        text::trim_dots(domain).len() > 0,
    ensures
        conf::searches_in(text::lines(direct::new_conf(cfg, Some(content)))).contains(
            text::trim_dots(domain),
        ),
{
    let configured = text::trim_dots_all(cfg.search_domains);
    let kept = direct::kept_domains(Some(content));
    let nameservers = direct::merged_nameservers(
        cfg.nameservers,
        direct::kept_nameservers(Some(content)),
    );
    let domains = direct::merged_domains(configured, kept);
    let name = text::trim_dots(domain);
    let k = choose|k: int| 0 <= k < kept.len() && kept[k] == domain;
    lemma_searched_are_words(text::lines(content), k);
    text_laws::dots_are_trimmed(domain);
    assert(text_laws::is_word(name));
    domains_are_merged(configured, kept);
    assert(text::trim_dots_all(kept)[k] == name);
    assert(domains.contains(name));
    let i = choose|i: int| 0 <= i < domains.len() && domains[i] == name;
    text_laws::a_joined_word_is_found(domains, i);
    lemma_domains_on_one_line(cfg, Some(content));
    conf_laws::lemma_search_line(domains);
    lemma_entries_of_new_conf(nameservers, domains);
    conf_laws::lemma_lines_of_entries(nameservers, domains);
    let a = text::lines(conf::nameserver_lines(nameservers));
    let b = text::lines(conf::search_line(domains));
    conf_laws::lemma_searches_add(a, b);
    let x = conf::searches_in(a);
    let y = conf::searches_in(b);
    let j = choose|j: int| 0 <= j < y.len() && y[j] == name;
    assert((x + y)[x.len() + j] == name);
}

/// What is written reads back: the new file names the nameservers and the search domains
/// in use in order, and nothing else, if the configured nameservers are addresses, the
/// configured domains single words, and no domain is made of dots only.
pub proof fn written_entries_read_back(cfg: OSConfigView, conf_text: Option<Text>)
    requires
        forall|i: int|
            0 <= i < cfg.nameservers.len() ==> conf_laws::is_address(
                #[trigger] cfg.nameservers[i],
            ),
        forall|i: int|
            0 <= i < cfg.search_domains.len() ==> text_laws::is_word(
                text::trim_dots(#[trigger] cfg.search_domains[i]),
            ),
        forall|i: int|
            0 <= i < direct::kept_domains(conf_text).len() ==> text::trim_dots(
                #[trigger] direct::kept_domains(conf_text)[i],
            ).len() > 0,
    ensures
        conf::nameservers_in(text::lines(direct::new_conf(cfg, conf_text)))
            == direct::merged_nameservers(cfg.nameservers, direct::kept_nameservers(conf_text)),
        conf::searches_in(text::lines(direct::new_conf(cfg, conf_text)))
            == direct::merged_domains(
            text::trim_dots_all(cfg.search_domains),
            direct::kept_domains(conf_text),
        ),
{
    let kept_ns = direct::kept_nameservers(conf_text);
    let nameservers = direct::merged_nameservers(cfg.nameservers, kept_ns);
    let configured = text::trim_dots_all(cfg.search_domains);
    let kept = direct::kept_domains(conf_text);
    let domains = direct::merged_domains(configured, kept);
    nameservers_are_merged(cfg.nameservers, kept_ns);
    domains_are_merged(configured, kept);
    assert forall|i: int| 0 <= i < nameservers.len() implies conf_laws::is_address(
        #[trigger] nameservers[i],
    ) by {
        let n = nameservers[i];
        assert(nameservers.contains(n));
        if cfg.nameservers.contains(n) {
            let j = choose|j: int| 0 <= j < cfg.nameservers.len() && cfg.nameservers[j] == n;
            assert(conf_laws::is_address(cfg.nameservers[j]));
        } else {
            let j = choose|j: int| 0 <= j < kept_ns.len() && kept_ns[j] == n;
            lemma_kept_are_addresses(conf_text, j);
        }
    }
    assert forall|i: int| 0 <= i < domains.len() implies text_laws::is_word(
        #[trigger] domains[i],
    ) by {
        let d = domains[i];
        assert(domains.contains(d));
        if configured.contains(d) {
            let j = choose|j: int| 0 <= j < configured.len() && configured[j] == d;
            assert(text_laws::is_word(text::trim_dots(cfg.search_domains[j])));
        } else {
            let names = text::trim_dots_all(kept);
            let j = choose|j: int| 0 <= j < names.len() && names[j] == d;
            lemma_searched_are_words(text::lines(conf_text->0), j);
            text_laws::dots_are_trimmed(kept[j]);
        }
    }
    conf_laws::rendered_entries_read_back(nameservers, domains);
    lemma_entries_of_new_conf(nameservers, domains);
}

/// A file is the manager's own if and only if it starts with the line "# Added by easytier".
pub proof fn own_files_start_with_the_header(content: Text)
    ensures
        direct::is_ours(content) <==> text::starts_with(content, "# Added by easytier\n"@),
{
}

/// What there is to keep: all entries of a file that is not the manager's own, and nothing of
/// one that is, or of none.
pub proof fn foreign_entries_are_kept(content: Text)
    ensures
        direct::kept_nameservers(None) == Seq::<Text>::empty(),
        direct::kept_domains(None) == Seq::<Text>::empty(),
        text::starts_with(content, "# Added by easytier\n"@) ==> direct::kept_nameservers(
            Some(content),
        ) == Seq::<Text>::empty() && direct::kept_domains(Some(content)) == Seq::<Text>::empty(),
        !text::starts_with(content, "# Added by easytier\n"@) ==> direct::kept_nameservers(
            Some(content),
        ) == conf::nameservers_in(text::lines(content)) && direct::kept_domains(Some(content))
            == conf::searches_in(text::lines(content)),
{
}

/// Merging nameservers, one by one: one more to keep comes last, unless it is configured.
pub proof fn each_nameserver_is_kept_in_turn(
    configured: Seq<Text>,
    kept: Seq<Text>,
    address: Text,
)
    ensures
        direct::merged_nameservers(configured, Seq::empty()) == configured,
        configured.contains(address) ==> direct::merged_nameservers(configured, kept.push(address))
            == direct::merged_nameservers(configured, kept),
        !configured.contains(address) ==> direct::merged_nameservers(
            configured,
            kept.push(address),
        ) == direct::merged_nameservers(configured, kept).push(address),
{
    reveal(Seq::filter);
    assert(kept.push(address).drop_last() == kept);
}

/// Merging domains, one by one: one more to keep comes last, without the dots at its end,
/// unless it is in use already.
pub proof fn each_domain_is_kept_in_turn(domains: Seq<Text>, kept: Seq<Text>, domain: Text)
    ensures
        direct::merged_domains(domains, Seq::empty()) == domains,
        ({
            let before = direct::merged_domains(domains, kept);
            let name = text::trim_dots(domain);
            direct::merged_domains(domains, kept.push(domain)) == (if before.contains(name) {
                before
            } else {
                before.push(name)
            })
        }),
{
    assert(kept.push(domain).drop_last() == kept);
}

/// The new file is two comments, then a line for each nameserver in use, then one line for
/// the domains in use. The domains for routing do not matter.
pub proof fn the_new_file_part_by_part(
    cfg: OSConfigView,
    conf_text: Option<Text>,
    other: Seq<Text>,
)
    ensures
        direct::new_conf(cfg, conf_text) == "# Added by easytier\n"@
            + "# Original resolv.conf backed up to "@ + "/etc/resolv.conf.easytier.bak"@ + "\n"@
            + conf::nameserver_lines(
            direct::merged_nameservers(cfg.nameservers, direct::kept_nameservers(conf_text)),
        ) + conf::search_line(
            direct::merged_domains(
                text::trim_dots_all(cfg.search_domains),
                direct::kept_domains(conf_text),
            ),
        ),
        direct::new_conf(OSConfigView { match_domains: other, ..cfg }, conf_text)
            == direct::new_conf(cfg, conf_text),
{
}

/// Every domain that the new file tells to search is a word of a configured one, or stands
/// behind "search " on a line of a file that is not the manager's own, each without the dots
/// at its end. The configured entries must not hold line feeds, as one of them would start a
/// line of its own.
pub proof fn searched_domains_have_a_source(cfg: OSConfigView, content: Text, domain: Text)
    requires
        forall|i: int|
            0 <= i < cfg.nameservers.len() ==> !(#[trigger] cfg.nameservers[i]).contains('\n'),
        forall|i: int|
            0 <= i < cfg.search_domains.len() ==> !(#[trigger] cfg.search_domains[i]).contains(
                '\n',
            ),
        conf::searches_in(text::lines(direct::new_conf(cfg, Some(content)))).contains(domain),
    ensures
        ({
            ||| exists|i: int|
                0 <= i < cfg.search_domains.len() && text::words(
                    text::trim_dots(#[trigger] cfg.search_domains[i]),
                ).contains(domain)
            ||| !text::starts_with(content, "# Added by easytier\n"@) && exists|k: int, old: Text|
                0 <= k < text::lines(content).len() && text::starts_with(
                    text::trim(text::lines(content)[k]),
                    "search "@,
                ) && #[trigger] text::words(
                    text::trim(text::lines(content)[k]).skip("search "@.len() as int),
                ).contains(old) && text::trim_dots(old) == domain
        }),
{
    let kept_ns = direct::kept_nameservers(Some(content));
    let nameservers = direct::merged_nameservers(cfg.nameservers, kept_ns);
    let configured = text::trim_dots_all(cfg.search_domains);
    let kept = direct::kept_domains(Some(content));
    let domains = direct::merged_domains(configured, kept);
    nameservers_are_merged(cfg.nameservers, kept_ns);
    assert forall|i: int| 0 <= i < nameservers.len() implies !(#[trigger] nameservers[i]).contains(
        '\n',
    ) by {
        let n = nameservers[i];
        assert(nameservers.contains(n));
        if cfg.nameservers.contains(n) {
            let j = choose|j: int| 0 <= j < cfg.nameservers.len() && cfg.nameservers[j] == n;
            assert(!cfg.nameservers[j].contains('\n'));
        } else {
            let j = choose|j: int| 0 <= j < kept_ns.len() && kept_ns[j] == n;
            lemma_kept_are_addresses(Some(content), j);
        }
    }
    lemma_entries_of_new_conf(nameservers, domains);
    conf_laws::lemma_lines_of_entries(nameservers, domains);
    conf_laws::lemma_searches_add(
        text::lines(conf::nameserver_lines(nameservers)),
        text::lines(conf::search_line(domains)),
    );
    conf_laws::lemma_nameserver_lines_search_nothing(nameservers);
    let found = conf::searches_in(text::lines(conf::search_line(domains)));
    assert(Seq::<Text>::empty() + found == found);
    lemma_domains_on_one_line(cfg, Some(content));
    conf_laws::lemma_search_line_searches_words(domains, domain);
    let i = choose|i: int|
        0 <= i < domains.len() && text::words(#[trigger] domains[i]).contains(domain);
    let d = domains[i];
    domains_are_merged(configured, kept);
    assert(domains.contains(d));
    if configured.contains(d) {
        let j = choose|j: int| 0 <= j < configured.len() && configured[j] == d;
        assert(text::words(text::trim_dots(cfg.search_domains[j])).contains(domain));
    } else {
        let names = text::trim_dots_all(kept);
        let j = choose|j: int| 0 <= j < names.len() && names[j] == d;
        let old = kept[j];
        lemma_searched_are_words(text::lines(content), j);
        text_laws::dots_are_trimmed(old);
        assert forall|x: int| 0 <= x < d.len() implies !text::white_space(#[trigger] d[x]) by {
            assert(d[x] == old[x]);
        }
        text_laws::text_without_white_space_is_a_word(d);
        assert(kept.contains(old));
        conf_laws::domains_stand_on_search_lines(text::lines(content), old);
        let k = choose|k: int|
            0 <= k < text::lines(content).len() && text::starts_with(
                text::trim(#[trigger] text::lines(content)[k]),
                "search "@,
            ) && text::words(
                text::trim(text::lines(content)[k]).skip("search "@.len() as int),
            ).contains(old);
        assert(text::words(
            text::trim(text::lines(content)[k]).skip("search "@.len() as int),
        ).contains(old));
    }
}

/// Lines that are neither `nameserver` nor `search` lines do not matter: with one of them
/// left out, the new file is the same, as long as neither file is the manager's own.
pub proof fn other_lines_do_not_matter(cfg: OSConfigView, a: Text, line: Text, b: Text)
    requires
        a.len() > 0 ==> a.last() == '\n',
        !line.contains('\n'),
        line.len() > 0 ==> line.last() != '\r',
        !text::starts_with(text::trim(line), "nameserver "@),
        !text::starts_with(text::trim(line), "search "@),
        !text::starts_with(a + b, "# Added by easytier\n"@),
        !text::starts_with(a + (line.push('\n') + b), "# Added by easytier\n"@),
    ensures
        direct::new_conf(cfg, Some(a + (line.push('\n') + b))) == direct::new_conf(
            cfg,
            Some(a + b),
        ),
{
    let more = line.push('\n') + b;
    if a.len() > 0 {
        text_laws::lines_split_at_line_feed(a, b, '\n', '\r');
        text_laws::lines_split_at_line_feed(a, more, '\n', '\r');
    } else {
        assert(a + b == b);
        assert(a + more == more);
        assert(text::lines(a) == Seq::<Text>::empty());
    }
    text_laws::text_is_read_line_by_line(line, b);
    let x = text::lines(a);
    let y = text::lines(b);
    assert(text::lines(a + b) == x + y);
    assert(text::lines(a + more) == x + (seq![line] + y));
    conf_laws::lemma_nameservers_add(x, y);
    conf_laws::lemma_nameservers_add(x, seq![line] + y);
    conf_laws::lemma_nameservers_add(seq![line], y);
    conf_laws::lemma_searches_add(x, y);
    conf_laws::lemma_searches_add(x, seq![line] + y);
    conf_laws::lemma_searches_add(seq![line], y);
    conf_laws::lemma_entries_of_one(line);
    conf_laws::only_nameserver_lines_name_nameservers(line, line);
    conf_laws::only_search_lines_name_domains(line, line);
    assert(Seq::<Text>::empty() + conf::nameservers_in(y) == conf::nameservers_in(y));
    assert(Seq::<Text>::empty() + conf::searches_in(y) == conf::searches_in(y));
}

/// What is done to apply a configuration: the new file is written last, and before that the
/// file that is there is copied to the backup, if there is one and no backup yet. Nothing
/// else is done.
pub proof fn the_backup_is_made_before_writing(cfg: OSConfigView, seen: FilesSeenView)
    ensures
        ({
            let done = direct::set_dns_actions(cfg, seen);
            &&& done.len() == (if seen.conf_exists && !seen.backup_exists {
                2int
            } else {
                1int
            })
            &&& done.last() == FileActionView::Write {
                path: "/etc/resolv.conf"@,
                content: direct::new_conf(cfg, seen.conf_text),
            }
            &&& done.len() == 2 ==> done[0] == FileActionView::Copy {
                from: "/etc/resolv.conf"@,
                to: "/etc/resolv.conf.easytier.bak"@,
            }
        }),
{
}

/// What is done to undo it: the backup is copied back and then removed, if there is one and
/// the file is the manager's own or cannot be read. Else nothing is done.
pub proof fn the_backup_is_removed_after_restoring(seen: FilesSeenView)
    ensures
        ({
            let done = direct::close_actions(seen);
            let foreign = seen.conf_text matches Some(content) && !text::starts_with(
                content,
                "# Added by easytier\n"@,
            );
            &&& done.len() == (if seen.backup_exists && !foreign {
                2int
            } else {
                0int
            })
            &&& done.len() == 2 ==> done[0] == FileActionView::Copy {
                from: "/etc/resolv.conf.easytier.bak"@,
                to: "/etc/resolv.conf"@,
            }
            &&& done.len() == 2 ==> done[1] == FileActionView::Remove {
                path: "/etc/resolv.conf.easytier.bak"@,
            }
        }),
{
}

} // verus!
