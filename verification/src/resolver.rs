use crate::encoding;
use crate::nsswitch;
use crate::text;
use crate::text::Text;
use vstd::prelude::*;

verus! {

/// The address of a nameserver.
#[derive(Debug, PartialEq, Eq)]
pub enum Nameserver {
    /// The four bytes of an IPv4 address.
    V4(u8, u8, u8, u8),
    /// The bits of an IPv6 address, and the scope if one is given.
    V6(u128, Option<String>),
}

/// The value of a `Nameserver`.
pub enum NameserverView {
    V4(u8, u8, u8, u8),
    V6(u128, Option<Text>),
}

impl View for Nameserver {
    type V = NameserverView;

    open spec fn view(&self) -> NameserverView {
        match *self {
            Nameserver::V4(a, b, c, d) => NameserverView::V4(a, b, c, d),
            Nameserver::V6(bits, scope) => NameserverView::V6(bits, text::opt_text(scope)),
        }
    }
}

/// The values of a list of nameservers.
pub open spec fn addresses(v: Seq<Nameserver>) -> Seq<NameserverView> {
    v.map_values(|n: Nameserver| n@)
}

/// The values of what parsing a `resolv.conf` gave.
pub open spec fn parsed_of(r: Result<Vec<Nameserver>, String>) -> Result<
    Seq<NameserverView>,
    Text,
> {
    match r {
        Ok(nameservers) => Ok(addresses(nameservers@)),
        Err(message) => Err(message@),
    }
}

/// The nameservers that `resolv_conf::Config::parse` finds, or the message of the error
/// that it gives.
pub uninterp spec fn parsed_nameservers(conf: Seq<u8>) -> Result<Seq<NameserverView>, Seq<char>>;

/// Calls `resolv_conf::Config::parse` and hands out the nameservers it found, or the
/// message of its error.
///
/// Whether it succeeds, which nameservers it finds in which order, and what its error
/// says where it fails, depends on the bytes alone. Which bytes it accepts, and the
/// wording of its errors, is left open.
#[verifier::external_body]
fn parse_nameservers(conf: &[u8]) -> (r: Result<Vec<Nameserver>, String>)
    ensures
        parsed_of(r) == parsed_nameservers(conf@),
{
    let config = resolv_conf::Config::parse(conf).map_err(|e| e.to_string())?;
    let mut v: Vec<Nameserver> = Vec::new();
    for nameserver in config.nameservers {
        v.push(match nameserver {
            resolv_conf::ScopedIp::V4(ip) => {
                let [a, b, c, d] = ip.octets();
                Nameserver::V4(a, b, c, d)
            },
            resolv_conf::ScopedIp::V6(ip, scope) => Nameserver::V6(u128::from(ip), scope),
        });
    }
    Ok(v)
}

/// How systemd-resolved was found to be the resolver in use.
#[derive(Clone, Copy, Debug, PartialEq, Eq, Structural)]
pub enum Evidence {
    /// Name lookups go through `libnss_resolve`.
    Nss,
    /// `resolv.conf` names nothing but the stub of systemd-resolved.
    File,
}

/// Why systemd-resolved is not the resolver in use.
#[derive(Debug, PartialEq, Eq)]
pub enum ResolverError {
    /// `resolv.conf` cannot be parsed; this is what the parser says.
    Unparsable(String),
    /// `resolv.conf` names no nameserver.
    NoNameservers,
    /// `resolv.conf` names another nameserver.
    OtherNameserver,
}

/// The values of a `ResolverError`.
pub enum Refusal {
    Unparsable(Text),
    NoNameservers,
    OtherNameserver,
}

impl View for ResolverError {
    type V = Refusal;

    open spec fn view(&self) -> Refusal {
        match *self {
            ResolverError::Unparsable(message) => Refusal::Unparsable(message@),
            ResolverError::NoNameservers => Refusal::NoNameservers,
            ResolverError::OtherNameserver => Refusal::OtherNameserver,
        }
    }
}

impl Refusal {
    /// What the error says.
    pub open spec fn text(self) -> Text {
        match self {
            Refusal::Unparsable(message) => message,
            Refusal::NoNameservers => "resolv.conf has no nameservers"@,
            Refusal::OtherNameserver => "resolv.conf doesn't point to systemd-resolved"@,
        }
    }
}

impl ResolverError {
    /// The error as a message.
    pub fn message(&self) -> (r: String)
        ensures
            r@ == self@.text(),
    {
        match self {
            ResolverError::Unparsable(message) => message.clone(),
            ResolverError::NoNameservers => "resolv.conf has no nameservers".to_string(),
            ResolverError::OtherNameserver => "resolv.conf doesn't point to systemd-resolved".to_string(),
        }
    }
}

/// The address at which systemd-resolved listens.
pub open spec fn stub_address() -> NameserverView {
    NameserverView::V4(127, 0, 0, 53)
}

/// Whether a list of nameservers sends every query to systemd-resolved.
pub open spec fn nameservers_verdict(nameservers: Seq<NameserverView>) -> Result<(), Refusal> {
    if nameservers.len() == 0 {
        Err(Refusal::NoNameservers)
    } else if forall|i: int| 0 <= i < nameservers.len() ==> nameservers[i] == stub_address() {
        Ok(())
    } else {
        Err(Refusal::OtherNameserver)
    }
}

/// Whether `resolv.conf`, with the nameservers parsed of it or the message of the error
/// that this gave, sends every query to systemd-resolved.
pub open spec fn conf_verdict(parsed: Result<Seq<NameserverView>, Text>) -> Result<(), Refusal> {
    match parsed {
        Ok(nameservers) => nameservers_verdict(nameservers),
        Err(message) => Err(Refusal::Unparsable(message)),
    }
}

/// Whether systemd-resolved is the resolver in use, `nss` telling whether name
/// lookups go through `libnss_resolve`.
pub open spec fn resolver_verdict(
    nss: bool,
    parsed: Result<Seq<NameserverView>, Text>,
) -> Result<Evidence, Refusal> {
    if nss {
        Ok(Evidence::Nss)
    } else {
        match conf_verdict(parsed) {
            Ok(_) => Ok(Evidence::File),
            Err(refusal) => Err(refusal),
        }
    }
}

/// Whether name lookups go through `libnss_resolve`, given what
/// `/etc/nsswitch.conf` holds, if it can be read.
pub open spec fn nss_in_use(nsswitch: Option<Seq<u8>>) -> bool {
    match nsswitch {
        Some(content) => nsswitch::nss_verdict(encoding::utf8_lossy(content)) is Ok,
        None => false,
    }
}

/// The value of a verdict.
pub open spec fn verdict_of<T>(r: Result<T, ResolverError>) -> Result<T, Refusal> {
    match r {
        Ok(v) => Ok(v),
        Err(e) => Err(e@),
    }
}

impl Nameserver {
    /// Whether this is the address at which systemd-resolved listens.
    pub fn is_stub(&self) -> (r: bool)
        ensures
            r == (self@ == stub_address()),
    {
        match self {
            Nameserver::V4(a, b, c, d) => *a == 127 && *b == 0 && *c == 0 && *d == 53,
            Nameserver::V6(_, _) => false,
        }
    }
}

/// Check that a list of nameservers sends every query to systemd-resolved.
pub fn check_nameservers(nameservers: &Vec<Nameserver>) -> (r: Result<(), ResolverError>)
    ensures
        verdict_of(r) == nameservers_verdict(addresses(nameservers@)),
{
    let ghost all = addresses(nameservers@);
    if nameservers.len() == 0 {
        return Err(ResolverError::NoNameservers);
    }
    for i in 0..nameservers.len()
        invariant
            all == addresses(nameservers@),
            forall|j: int| 0 <= j < i ==> all[j] == stub_address(),
    {
        assert(all[i as int] == nameservers@[i as int]@);
        if !nameservers[i].is_stub() {
            return Err(ResolverError::OtherNameserver);
        }
    }
    Ok(())
}

/// Check that what parsing `resolv.conf` gave sends every query to systemd-resolved.
pub fn check_parsed(parsed: Result<Vec<Nameserver>, String>) -> (r: Result<(), ResolverError>)
    ensures
        verdict_of(r) == conf_verdict(parsed_of(parsed)),
{
    match parsed {
        Ok(nameservers) => check_nameservers(&nameservers),
        Err(message) => Err(ResolverError::Unparsable(message)),
    }
}

/// Check that `resolv.conf` sends every query to systemd-resolved.
pub fn check_conf(content: &[u8]) -> (r: Result<(), ResolverError>)
    ensures
        verdict_of(r) == conf_verdict(parsed_nameservers(content@)),
{
    check_parsed(parse_nameservers(content))
}

/// Check that systemd-resolved is the resolver in use, given what
/// `/etc/nsswitch.conf` holds, if it can be read, and what `/etc/resolv.conf`
/// holds.
pub fn resolved_is_actually_resolver(nsswitch: Option<&[u8]>, content: &[u8]) -> (r: Result<
    Evidence,
    ResolverError,
>)
    ensures
        verdict_of(r) == resolver_verdict(
            nss_in_use(
                match nsswitch {
                    Some(bytes) => Some(bytes@),
                    None => None,
                },
            ),
            parsed_nameservers(content@),
        ),
{
    if let Some(bytes) = nsswitch {
        if nsswitch::is_libnss_resolve_used(bytes).is_ok() {
            return Ok(Evidence::Nss);
        }
    }
    match check_conf(content) {
        Ok(_) => Ok(Evidence::File),
        Err(e) => Err(e),
    }
}

/// Every nameserver counts: one that is not 127.0.0.53, wherever it stands, is refused, and
/// so is an empty list; a list of nothing else is accepted.
pub proof fn every_nameserver_has_to_be_the_stub(nameservers: Seq<NameserverView>, i: int)
    ensures
        0 <= i < nameservers.len() && nameservers[i] != NameserverView::V4(127, 0, 0, 53)
            ==> nameservers_verdict(nameservers) == Err::<(), Refusal>(Refusal::OtherNameserver),
        nameservers.len() == 0 ==> nameservers_verdict(nameservers) == Err::<(), Refusal>(
            Refusal::NoNameservers,
        ),
        nameservers.len() > 0 && (forall|j: int|
            0 <= j < nameservers.len() ==> #[trigger] nameservers[j] == NameserverView::V4(
                127,
                0,
                0,
                53,
            )) ==> nameservers_verdict(nameservers) == Ok::<(), Refusal>(()),
{
}

/// Two lists are accepted together if and only if each of them is, whichever comes first.
pub proof fn lists_are_accepted_together(a: Seq<NameserverView>, b: Seq<NameserverView>)
    requires
        a.len() > 0,
        b.len() > 0,
    ensures
        nameservers_verdict(a + b) is Ok <==> nameservers_verdict(a) is Ok && nameservers_verdict(
            b,
        ) is Ok,
        nameservers_verdict(a + b) == nameservers_verdict(b + a),
{
    let ab = a + b;
    let ba = b + a;
    let stub = stub_address();
    if nameservers_verdict(a) is Ok && nameservers_verdict(b) is Ok {
        assert forall|i: int| 0 <= i < ab.len() implies ab[i] == stub by {}
        assert forall|i: int| 0 <= i < ba.len() implies ba[i] == stub by {}
    }
    if nameservers_verdict(a) is Err {
        let i = choose|i: int| 0 <= i < a.len() && a[i] != stub;
        assert(ab[i] != stub);
        assert(ba[b.len() + i] != stub);
    }
    if nameservers_verdict(b) is Err {
        let i = choose|i: int| 0 <= i < b.len() && b[i] != stub;
        assert(ab[a.len() + i] != stub);
        assert(ba[i] != stub);
    }
}

/// A file that cannot be parsed is refused with what the parser says, and one that can be is
/// judged by its nameservers.
pub proof fn a_file_is_judged_by_what_is_parsed(
    nameservers: Seq<NameserverView>,
    message: Text,
)
    ensures
        conf_verdict(Err(message)) == Err::<(), Refusal>(Refusal::Unparsable(message)),
        conf_verdict(Ok(nameservers)) == nameservers_verdict(nameservers),
{
}

/// `libnss_resolve` is evidence enough whatever `resolv.conf` holds; without it, what
/// `resolv.conf` holds decides.
pub proof fn the_file_counts_only_without_nss(parsed: Result<Seq<NameserverView>, Text>)
    ensures
        resolver_verdict(true, parsed) == Ok::<Evidence, Refusal>(Evidence::Nss),
        conf_verdict(parsed) is Ok ==> resolver_verdict(false, parsed) == Ok::<Evidence, Refusal>(
            Evidence::File,
        ),
        conf_verdict(parsed) matches Err(refusal) ==> resolver_verdict(false, parsed) == Err::<
            Evidence,
            Refusal,
        >(refusal),
{
}

/// An `nsswitch.conf` that cannot be read is no evidence; one that can be is evidence if and
/// only if its text puts `resolve` before `dns`.
pub proof fn an_unreadable_nsswitch_is_no_evidence(content: Seq<u8>)
    ensures
        !nss_in_use(None),
        nss_in_use(Some(content)) <==> nsswitch::nss_verdict(encoding::utf8_lossy(content)) is Ok,
{
}

} // verus!
