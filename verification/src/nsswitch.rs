use crate::encoding;
use crate::text;
use crate::text::Text;
use vstd::prelude::*;
use vstd::utf8;

verus! {

/// Why name lookups do not go through `libnss_resolve`.
#[derive(Clone, Copy, Debug, PartialEq, Eq, Structural)]
pub enum NssError {
    /// The `dns` module comes before the `resolve` module.
    DnsFirst,
    /// Neither module is listed.
    NotUsed,
}

impl NssError {
    /// What the error says.
    pub open spec fn text(self) -> Text {
        match self {
            NssError::DnsFirst => "dns module has higher priority"@,
            NssError::NotUsed => "libnss_resolve not used"@,
        }
    }

    /// The error as a message.
    pub fn message(&self) -> (r: String)
        ensures
            r@ == self.text(),
    {
        match self {
            NssError::DnsFirst => "dns module has higher priority".to_string(),
            NssError::NotUsed => "libnss_resolve not used".to_string(),
        }
    }
}

/// The modules that a line of `nsswitch.conf` lists for the `hosts` database.
pub open spec fn hosts_in_line(line: Text) -> Seq<Text> {
    let w = text::words(line);
    if w.len() > 0 && w[0] == "hosts:"@ {
        w.drop_first()
    } else {
        Seq::empty()
    }
}

/// The modules that the lines of `nsswitch.conf` list for the `hosts` database,
/// in the order in which they stand.
pub open spec fn hosts_modules(lines: Seq<Text>) -> Seq<Text>
    decreases lines.len(),
{
    if lines.len() == 0 {
        Seq::empty()
    } else {
        hosts_in_line(lines[0]) + hosts_modules(lines.drop_first())
    }
}

/// Whether a module settles how a name is looked up.
pub open spec fn decisive(module: Text) -> bool {
    module == "dns"@ || module == "resolve"@
}

/// The first module that settles how a name is looked up.
pub open spec fn first_decisive(modules: Seq<Text>) -> Option<Text>
    decreases modules.len(),
{
    if modules.len() == 0 {
        None
    } else if decisive(modules[0]) {
        Some(modules[0])
    } else {
        first_decisive(modules.drop_first())
    }
}

/// Whether name lookups go through `libnss_resolve`: whether `resolve` comes
/// before `dns` among the modules of the `hosts` database.
pub open spec fn nss_verdict(conf: Text) -> Result<(), NssError> {
    match first_decisive(hosts_modules(text::lines(conf))) {
        None => Err(NssError::NotUsed),
        Some(module) => if module == "resolve"@ {
            Ok(())
        } else {
            Err(NssError::DnsFirst)
        },
    }
}

/// The modules of a file are those of its first lines, then those of the rest.
proof fn lemma_hosts_split(lines: Seq<Text>, k: int)
    requires
        0 <= k <= lines.len(),
    ensures
        hosts_modules(lines) == hosts_modules(lines.take(k)) + hosts_modules(lines.skip(k)),
    decreases k,
{
    if k == 0 {
        assert(lines.skip(0) == lines);
        assert(lines.take(0) == Seq::<Text>::empty());
    } else {
        lemma_hosts_split(lines.drop_first(), k - 1);
        assert(lines.drop_first().take(k - 1) == lines.take(k).drop_first());
        assert(lines.drop_first().skip(k - 1) == lines.skip(k));
    }
}

/// Modules that settle nothing can be left out in front.
proof fn lemma_first_decisive(before: Seq<Text>, rest: Seq<Text>)
    requires
        first_decisive(before) is None,
    ensures
        first_decisive(before + rest) == first_decisive(rest),
    decreases before.len(),
{
    if before.len() == 0 {
        assert(before + rest == rest);
    } else {
        lemma_first_decisive(before.drop_first(), rest);
        assert((before + rest).drop_first() == before.drop_first() + rest);
    }
}

/// Check whether the text of an `nsswitch.conf` puts `resolve` before `dns`.
pub fn libnss_resolve_listed(conf: &str) -> (r: Result<(), NssError>)
    ensures
        r == nss_verdict(conf@),
{
    let chars = text::chars_of(conf);
    let lines = text::lines_of(chars.as_slice());
    let ghost all = text::lines(conf@);
    let key = text::chars_of("hosts:");
    let dns = text::chars_of("dns");
    let resolve = text::chars_of("resolve");
    assert(all.take(0) == Seq::<Text>::empty());
    for i in 0..lines.len()
        invariant
            all == text::lines(conf@),
            text::pieces(lines@) == all,
            key@ == "hosts:"@,
            dns@ == "dns"@,
            resolve@ == "resolve"@,
            first_decisive(hosts_modules(all.take(i as int))) is None,
    {
        let ghost before = hosts_modules(all.take(i as int));
        let ghost here = hosts_in_line(all[i as int]);
        let ghost after = hosts_modules(all.skip(i + 1));
        proof {
            assert(all[i as int] == lines@[i as int]@);
            lemma_hosts_split(all, i as int);
            assert(all.skip(i as int).drop_first() == all.skip(i + 1));
            assert(hosts_modules(all) == before + (here + after));
            lemma_first_decisive(before, here + after);
            lemma_hosts_split(all.take(i + 1), i as int);
            assert(all.take(i + 1).take(i as int) == all.take(i as int));
            assert(all.take(i + 1).skip(i as int) == seq![all[i as int]]);
            assert(seq![all[i as int]].drop_first() == Seq::<Text>::empty());
            reveal_with_fuel(hosts_modules, 2);
            assert(hosts_modules(all.take(i + 1)) == before + here);
            lemma_first_decisive(before, here);
        }
        let w = text::words_of(lines[i]);
        let ghost listed = text::words(all[i as int]);
        assert(w@.len() == listed.len());
        assert(w@.len() > 0 ==> listed[0] == w@[0]@);
        if w.len() > 0 && text::same_chars(w[0], key.as_slice()) {
            assert(here.take(0) == Seq::<Text>::empty());
            for j in 1..w.len()
                invariant
                    1 <= j <= w@.len(),
                    text::pieces(w@) == listed,
                    here == listed.drop_first(),
                    dns@ == "dns"@,
                    resolve@ == "resolve"@,
                    first_decisive(here.take(j - 1)) is None,
                    first_decisive(hosts_modules(all)) == first_decisive(here + after),
                    nss_verdict(conf@) == match first_decisive(hosts_modules(all)) {
                        None => Err::<(), NssError>(NssError::NotUsed),
                        Some(module) => if module == "resolve"@ {
                            Ok(())
                        } else {
                            Err(NssError::DnsFirst)
                        },
                    },
            {
                proof {
                    assert(listed[j as int] == w@[j as int]@);
                    assert(here[j - 1] == listed[j as int]);
                    let rest = here.skip(j - 1) + after;
                    assert(here + after == here.take(j - 1) + rest);
                    lemma_first_decisive(here.take(j - 1), rest);
                    assert(rest[0] == here[j - 1]);
                    assert(here.take(j as int) == here.take(j - 1) + seq![here[j - 1]]);
                    lemma_first_decisive(here.take(j - 1), seq![here[j - 1]]);
                    assert(seq![here[j - 1]].drop_first() == Seq::<Text>::empty());
                    reveal_with_fuel(first_decisive, 2);
                }
                if text::same_chars(w[j], dns.as_slice()) {
                    proof {
                        reveal_strlit("dns");
                        reveal_strlit("resolve");
                        assert("dns"@.len() != "resolve"@.len());
                    }
                    return Err(NssError::DnsFirst);
                }
                if text::same_chars(w[j], resolve.as_slice()) {
                    return Ok(());
                }
            }
            assert(here.take(here.len() as int) == here);
        }
    }
    assert(all.take(all.len() as int) == all);
    Err(NssError::NotUsed)
}

/// Check whether name lookups go through `libnss_resolve`, given the contents of
/// `/etc/nsswitch.conf`.
pub fn is_libnss_resolve_used(content: &[u8]) -> (r: Result<(), NssError>)
    ensures
        r == nss_verdict(encoding::utf8_lossy(content@)),
        utf8::valid_utf8(content@) ==> r == nss_verdict(utf8::decode_utf8(content@)),
{
    let conf = encoding::lossy_text(content);
    libnss_resolve_listed(conf.as_str())
}

/// Where the first module that settles it stands.
proof fn lemma_first_decisive_at(modules: Seq<Text>)
    ensures
        match first_decisive(modules) {
            None => forall|j: int| 0 <= j < modules.len() ==> !decisive(#[trigger] modules[j]),
            Some(module) => decisive(module) && exists|i: int|
                0 <= i < modules.len() && #[trigger] modules[i] == module && (forall|j: int|
                    0 <= j < i ==> !decisive(#[trigger] modules[j])),
        },
    decreases modules.len(),
{
    if modules.len() > 0 {
        let rest = modules.drop_first();
        if decisive(modules[0]) {
            assert(modules[0] == first_decisive(modules)->0);
        } else {
            lemma_first_decisive_at(rest);
            assert(forall|j: int| 0 < j < modules.len() ==> modules[j] == rest[j - 1]);
            if let Some(module) = first_decisive(rest) {
                let i = choose|i: int|
                    0 <= i < rest.len() && #[trigger] rest[i] == module && (forall|j: int|
                        0 <= j < i ==> !decisive(#[trigger] rest[j]));
                assert(modules[i + 1] == module);
            }
        }
    }
}

/// Name lookups go through `libnss_resolve` if and only if some module of the `hosts`
/// database is `resolve` and none before it is `dns`. They are said not to use it if and
/// only if neither module is listed.
pub proof fn resolve_has_to_come_before_dns(conf: Text)
    ensures
        ({
            let modules = hosts_modules(text::lines(conf));
            &&& nss_verdict(conf) is Ok <==> exists|i: int|
                0 <= i < modules.len() && #[trigger] modules[i] == "resolve"@
                    && !modules.take(i).contains("dns"@)
            &&& nss_verdict(conf) == Err::<(), NssError>(NssError::NotUsed) <==> (
            !modules.contains("resolve"@) && !modules.contains("dns"@))
        }),
{
    let modules = hosts_modules(text::lines(conf));
    lemma_first_decisive_at(modules);
    if let Some(module) = first_decisive(modules) {
        let i = choose|i: int|
            0 <= i < modules.len() && #[trigger] modules[i] == module && (forall|j: int|
                0 <= j < i ==> !decisive(#[trigger] modules[j]));
        if module == "resolve"@ {
            assert(!modules.take(i).contains("dns"@)) by {
                if modules.take(i).contains("dns"@) {
                    let j = choose|j: int| 0 <= j < i && modules.take(i)[j] == "dns"@;
                    assert(!decisive(modules[j]));
                }
            }
        } else {
            assert forall|k: int|
                0 <= k < modules.len() && #[trigger] modules[k] == "resolve"@ implies modules.take(
                k,
            ).contains("dns"@) by {
                assert(i < k) by {
                    if k < i {
                        assert(!decisive(modules[k]));
                    }
                }
                assert(modules.take(k)[i] == "dns"@);
            }
        }
    }
}

/// Where the first module that settles it is found does not depend on what follows: lines
/// added at the end of an `nsswitch.conf` that is already decided change nothing.
pub proof fn later_lines_change_nothing(lines: Seq<Text>, more: Seq<Text>)
    requires
        first_decisive(hosts_modules(lines)) is Some,
    ensures
        first_decisive(hosts_modules(lines + more)) == first_decisive(hosts_modules(lines)),
{
    let all = lines + more;
    lemma_hosts_split(all, lines.len() as int);
    assert(all.take(lines.len() as int) == lines);
    lemma_decided(hosts_modules(lines), hosts_modules(all.skip(lines.len() as int)));
}

/// What follows the first module that settles it does not matter.
proof fn lemma_decided(modules: Seq<Text>, more: Seq<Text>)
    requires
        first_decisive(modules) is Some,
    ensures
        first_decisive(modules + more) == first_decisive(modules),
    decreases modules.len(),
{
    assert((modules + more)[0] == modules[0]);
    if !decisive(modules[0]) {
        lemma_decided(modules.drop_first(), more);
        assert((modules + more).drop_first() == modules.drop_first() + more);
    }
}

/// A module of a file stands on a line that starts with "hosts:".
proof fn lemma_module_stands(lines: Seq<Text>, i: int)
    requires
        0 <= i < hosts_modules(lines).len(),
    ensures
        exists|l: int, k: int|
            0 <= l < lines.len() && 1 <= k < text::words(lines[l]).len() && text::words(
                lines[l],
            )[0] == "hosts:"@ && #[trigger] text::words(lines[l])[k] == hosts_modules(lines)[i],
    decreases lines.len(),
{
    let here = hosts_in_line(lines[0]);
    let rest = lines.drop_first();
    if i < here.len() {
        assert(text::words(lines[0])[i + 1] == here[i]);
    } else {
        let n = i - here.len();
        lemma_module_stands(rest, n);
        let (l, k) = choose|l: int, k: int|
            0 <= l < rest.len() && 1 <= k < text::words(rest[l]).len() && text::words(
                rest[l],
            )[0] == "hosts:"@ && #[trigger] text::words(rest[l])[k] == hosts_modules(rest)[n];
        assert(lines[l + 1] == rest[l]);
        assert(text::words(lines[l + 1])[k] == hosts_modules(lines)[i]);
    }
}

/// A word behind "hosts:" is a module, which stands behind the modules of the lines before
/// and behind the words before it on the line.
proof fn lemma_word_is_module(lines: Seq<Text>, l: int, k: int)
    requires
        0 <= l < lines.len(),
        1 <= k < text::words(lines[l]).len(),
        text::words(lines[l])[0] == "hosts:"@,
    ensures
        ({
            let before = hosts_modules(lines.take(l));
            let i = before.len() + k - 1;
            &&& i < hosts_modules(lines).len()
            &&& hosts_modules(lines)[i] == text::words(lines[l])[k]
            &&& hosts_modules(lines).take(i) == before + text::words(lines[l]).subrange(1, k)
        }),
{
    let before = hosts_modules(lines.take(l));
    let here = hosts_in_line(lines[l]);
    let after = hosts_modules(lines.skip(l + 1));
    lemma_hosts_split(lines, l);
    assert(lines.skip(l).drop_first() == lines.skip(l + 1));
    assert(hosts_modules(lines) == before + (here + after));
    let i = before.len() + k - 1;
    assert(hosts_modules(lines)[i] == here[k - 1]);
    assert(hosts_modules(lines).take(i) == before + here.take(k - 1));
    assert(here.take(k - 1) == text::words(lines[l]).subrange(1, k));
}

/// A module that stands before a word behind "hosts:" stands there as a word too.
proof fn lemma_module_before(lines: Seq<Text>, l: int, k: int, module: Text)
    requires
        0 <= l < lines.len(),
        1 <= k < text::words(lines[l]).len(),
        text::words(lines[l])[0] == "hosts:"@,
        hosts_modules(lines).take(hosts_modules(lines.take(l)).len() + k - 1).contains(module),
    ensures
        exists|m: int, j: int|
            0 <= m <= l && 1 <= j < text::words(lines[m]).len() && (m < l || j < k) && text::words(
                lines[m],
            )[0] == "hosts:"@ && #[trigger] text::words(lines[m])[j] == module,
{
    lemma_word_is_module(lines, l, k);
    let before = hosts_modules(lines.take(l));
    let part = text::words(lines[l]).subrange(1, k);
    let all = before + part;
    let i = choose|i: int| 0 <= i < all.len() && all[i] == module;
    if i < before.len() {
        let front = lines.take(l);
        lemma_module_stands(front, i);
        let (m, j) = choose|m: int, j: int|
            0 <= m < front.len() && 1 <= j < text::words(front[m]).len() && text::words(
                front[m],
            )[0] == "hosts:"@ && #[trigger] text::words(front[m])[j] == before[i];
        assert(front[m] == lines[m]);
        assert(text::words(lines[m])[j] == module);
    } else {
        let j = i - before.len() + 1;
        assert(part[j - 1] == text::words(lines[l])[j]);
        assert(text::words(lines[l])[j] == module);
    }
}

/// A line whose first word is "hosts:" lists all its other words, in order and whatever they
/// are; any other line lists none. A line more adds what it lists behind the others.
pub proof fn hosts_lines_list_all_their_words(lines: Seq<Text>, line: Text, rest: Seq<Text>)
    ensures
        text::words(line) == seq!["hosts:"@] + rest ==> hosts_in_line(line) == rest,
        text::words(line).len() == 0 || text::words(line)[0] != "hosts:"@ ==> hosts_in_line(line)
            == Seq::<Text>::empty(),
        hosts_modules(lines.push(line)) == hosts_modules(lines) + hosts_in_line(line),
        hosts_modules(Seq::empty()) == Seq::<Text>::empty(),
{
    assert((seq!["hosts:"@] + rest).drop_first() == rest);
    let all = lines.push(line);
    lemma_hosts_split(all, lines.len() as int);
    assert(all.take(lines.len() as int) == lines);
    assert(all.skip(lines.len() as int) == seq![line]);
    assert(seq![line].drop_first() == Seq::<Text>::empty());
    reveal_with_fuel(hosts_modules, 2);
    assert(hosts_modules(seq![line]) == hosts_in_line(line));
}

/// Where "resolve" stands behind "hosts:", and "dns" stands behind no "hosts:" before it,
/// name lookups go through `libnss_resolve`, whatever the other words are.
pub proof fn resolve_before_dns_is_used(conf: Text, l: int, k: int)
    requires
        0 <= l < text::lines(conf).len(),
        1 <= k < text::words(text::lines(conf)[l]).len(),
        text::words(text::lines(conf)[l])[0] == "hosts:"@,
        text::words(text::lines(conf)[l])[k] == "resolve"@,
        forall|m: int, j: int|
            0 <= m <= l && 1 <= j < text::words(text::lines(conf)[m]).len() && (m < l || j < k)
                && text::words(text::lines(conf)[m])[0] == "hosts:"@ ==> #[trigger] text::words(
                text::lines(conf)[m],
            )[j] != "dns"@,
    ensures
        nss_verdict(conf) == Ok::<(), NssError>(()),
{
    let lines = text::lines(conf);
    let modules = hosts_modules(lines);
    let i = hosts_modules(lines.take(l)).len() + k - 1;
    lemma_word_is_module(lines, l, k);
    if modules.take(i).contains("dns"@) {
        lemma_module_before(lines, l, k, "dns"@);
    }
    assert(modules[i] == "resolve"@);
    resolve_has_to_come_before_dns(conf);
}

/// Where "dns" stands behind "hosts:", and "resolve" stands behind no "hosts:" before it,
/// the `dns` module has priority, whatever the other words are.
pub proof fn dns_before_resolve_has_priority(conf: Text, l: int, k: int)
    requires
        0 <= l < text::lines(conf).len(),
        1 <= k < text::words(text::lines(conf)[l]).len(),
        text::words(text::lines(conf)[l])[0] == "hosts:"@,
        text::words(text::lines(conf)[l])[k] == "dns"@,
        forall|m: int, j: int|
            0 <= m <= l && 1 <= j < text::words(text::lines(conf)[m]).len() && (m < l || j < k)
                && text::words(text::lines(conf)[m])[0] == "hosts:"@ ==> #[trigger] text::words(
                text::lines(conf)[m],
            )[j] != "resolve"@,
    ensures
        nss_verdict(conf) == Err::<(), NssError>(NssError::DnsFirst),
{
    let lines = text::lines(conf);
    let modules = hosts_modules(lines);
    let i = hosts_modules(lines.take(l)).len() + k - 1;
    lemma_word_is_module(lines, l, k);
    assert(modules[i] == "dns"@);
    resolve_has_to_come_before_dns(conf);
    reveal_strlit("dns");
    reveal_strlit("resolve");
    assert("dns"@.len() != "resolve"@.len());
    if nss_verdict(conf) is Ok {
        let r = choose|r: int|
            0 <= r < modules.len() && #[trigger] modules[r] == "resolve"@ && !modules.take(
                r,
            ).contains("dns"@);
        if r > i {
            assert(modules.take(r)[i] == "dns"@);
        } else {
            assert(modules.take(i)[r] == "resolve"@);
            lemma_module_before(lines, l, k, "resolve"@);
        }
    }
}

/// Where neither "resolve" nor "dns" stands behind "hosts:", `libnss_resolve` is not used,
/// whatever other lines say.
pub proof fn without_resolve_and_dns_it_is_not_used(conf: Text)
    requires
        forall|m: int, j: int|
            0 <= m < text::lines(conf).len() && 1 <= j < text::words(text::lines(conf)[m]).len()
                && text::words(text::lines(conf)[m])[0] == "hosts:"@ ==> (#[trigger] text::words(
                text::lines(conf)[m],
            )[j]) != "resolve"@ && text::words(text::lines(conf)[m])[j] != "dns"@,
    ensures
        nss_verdict(conf) == Err::<(), NssError>(NssError::NotUsed),
{
    let lines = text::lines(conf);
    let modules = hosts_modules(lines);
    resolve_has_to_come_before_dns(conf);
    assert forall|i: int| 0 <= i < modules.len() implies modules[i] != "resolve"@ && modules[i]
        != "dns"@ by {
        lemma_module_stands(lines, i);
    }
}

} // verus!
