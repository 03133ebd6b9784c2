//! Network links. The guests have no network of their own between them, so a link is a
//! host name in one guest that leads to a port of the host: for TCP through a tunnel, for
//! UDP through a forwarder inside the guest.

use vstd::prelude::*;
use vstd::string::*;

use crate::ls_json;
use crate::messages;
use crate::model::{ErrorView, ExecResult, NetworkLink, Protocol, RightsizeError};
use crate::text;

verus! {

/// How long to wait between two looks for a forwarder, in milliseconds.
pub const UDP_FORWARDER_BIND_POLL_MS: u64 = 100;

/// How long a forwarder may take to come up, in milliseconds.
pub const UDP_FORWARDER_BIND_TIMEOUT_MS: u64 = 5_000;

/// The links of one protocol, in order.
pub open spec fn links_of(links: Seq<NetworkLink>, protocol: Protocol) -> Seq<NetworkLink>
    decreases links.len(),
{
    if links.len() == 0 {
        Seq::empty()
    } else if links.last().protocol == protocol {
        links_of(links.drop_last(), protocol).push(links.last())
    } else {
        links_of(links.drop_last(), protocol)
    }
}

/// The links that references lead to.
pub open spec fn referenced(links: Seq<&NetworkLink>) -> Seq<NetworkLink> {
    links.map_values(|link: &NetworkLink| *link)
}

/// Parts the links by protocol, each part in order: TCP first.
pub fn partition_links_by_protocol<'a>(links: &'a [NetworkLink]) -> (parts: (
    Vec<&'a NetworkLink>,
    Vec<&'a NetworkLink>,
))
    ensures
        referenced(parts.0@) == links_of(links@, Protocol::Tcp),
        referenced(parts.1@) == links_of(links@, Protocol::Udp),
{
    let mut tcp: Vec<&'a NetworkLink> = Vec::new();
    let mut udp: Vec<&'a NetworkLink> = Vec::new();
    let mut i: usize = 0;
    assert(links@.take(0) =~= Seq::empty());
    assert(referenced(tcp@) =~= Seq::empty());
    assert(referenced(udp@) =~= Seq::empty());
    while i < links.len()
        invariant
            i <= links@.len(),
            referenced(tcp@) == links_of(links@.take(i as int), Protocol::Tcp),
            referenced(udp@) == links_of(links@.take(i as int), Protocol::Udp),
        decreases links.len() - i,
    {
        let ghost head = links@.take(i + 1);
        assert(head.drop_last() =~= links@.take(i as int));
        let link: &'a NetworkLink = &links[i];
        match link.protocol {
            Protocol::Tcp => {
                let ghost before = referenced(tcp@);
                tcp.push(link);
                assert(referenced(tcp@) =~= before.push(*link));
            },
            Protocol::Udp => {
                let ghost before = referenced(udp@);
                udp.push(link);
                assert(referenced(udp@) =~= before.push(*link));
            },
        }
        i = i + 1;
    }
    assert(links@.take(i as int) =~= links@);
    (tcp, udp)
}

/// Whether two links take the same port of a guest: the same number and protocol.
pub open spec fn same_port(a: NetworkLink, b: NetworkLink) -> bool {
    a.protocol == b.protocol && a.guest_port == b.guest_port
}

/// Whether one of the links takes the same port as a link.
pub open spec fn port_is_taken(links: Seq<NetworkLink>, link: NetworkLink) -> bool {
    exists|i: int| 0 <= i < links.len() && same_port(#[trigger] links[i], link)
}

/// The port that the first link takes which another has taken before it.
pub open spec fn first_duplicate(links: Seq<NetworkLink>) -> Option<u16>
    decreases links.len(),
{
    if links.len() == 0 {
        None
    } else {
        match first_duplicate(links.drop_last()) {
            Some(port) => Some(port),
            None => if port_is_taken(links.drop_last(), links.last()) {
                Some(links.last().guest_port)
            } else {
                None
            },
        }
    }
}

/// The error of a request that this backend cannot carry out, with a way around it where
/// there is one.
pub open spec fn unsupported(feature: Seq<char>, remedy: Option<Seq<char>>) -> ErrorView {
    ErrorView::Unsupported(feature, "microsandbox"@, remedy)
}

/// Once a list of links has a first duplicate, more links do not change it.
proof fn lemma_first_duplicate_stays(links: Seq<NetworkLink>, count: int)
    requires
        0 <= count <= links.len(),
        first_duplicate(links.take(count)) is Some,
    ensures
        first_duplicate(links) == first_duplicate(links.take(count)),
    decreases links.len() - count,
{
    if count == links.len() {
        assert(links.take(count) =~= links);
    } else {
        assert(links.take(count + 1).drop_last() =~= links.take(count));
        lemma_first_duplicate_stays(links, count + 1);
    }
}

/// Refuses links of which two take the same port of the guest. The same number on TCP and
/// on UDP is not the same port.
pub fn require_no_duplicate_guest_ports(links: &[NetworkLink]) -> (outcome: Result<
    (),
    RightsizeError,
>)
    ensures
        match outcome {
            Ok(()) => first_duplicate(links@) is None,
            Err(error) => first_duplicate(links@) matches Some(port) && error@ == unsupported(
                messages::duplicate_port(port as nat),
                None,
            ),
        },
{
    let mut i: usize = 0;
    assert(links@.take(0) =~= Seq::empty());
    while i < links.len()
        invariant
            i <= links@.len(),
            first_duplicate(links@.take(i as int)) is None,
        decreases links.len() - i,
    {
        let ghost head = links@.take(i + 1);
        assert(head.drop_last() =~= links@.take(i as int));
        let mut j: usize = 0;
        while j < i
            invariant
                j <= i < links@.len(),
                head == links@.take(i + 1),
                head.drop_last() == links@.take(i as int),
                first_duplicate(links@.take(i as int)) is None,
                forall|k: int| 0 <= k < j ==> !same_port(#[trigger] links@[k], links@[i as int]),
            decreases i - j,
        {
            if links[j].protocol == links[i].protocol && links[j].guest_port == links[i].guest_port {
                assert(same_port(links@.take(i as int)[j as int], links@[i as int]));
                assert(first_duplicate(head) == Some(links@[i as int].guest_port));
                proof {
                    lemma_first_duplicate_stays(links@, i + 1);
                }
                let feature = messages::duplicate_port_text(links[i].guest_port as u64);
                return Err(
                    RightsizeError::Unsupported {
                        feature,
                        backend: "microsandbox".to_owned(),
                        remedy: None,
                    },
                );
            }
            j = j + 1;
        }
        assert forall|k: int| 0 <= k < links@.take(i as int).len() implies !same_port(
            #[trigger] links@.take(i as int)[k],
            head.last(),
        ) by {
            assert(links@.take(i as int)[k] == links@[k]);
        }
        i = i + 1;
    }
    assert(links@.take(i as int) =~= links@);
    Ok(())
}

/// Two different links that take the same port are refused, wherever they stand; links of
/// which no two do are not.
pub proof fn law_duplicates_are_found(links: Seq<NetworkLink>)
    ensures
        first_duplicate(links) is Some <==> exists|i: int, j: int|
            0 <= i < j < links.len() && same_port(#[trigger] links[i], #[trigger] links[j]),
    decreases links.len(),
{
    if links.len() > 0 {
        let before = links.drop_last();
        law_duplicates_are_found(before);
        if first_duplicate(before) is Some {
            let (i, j) = choose|i: int, j: int|
                0 <= i < j < before.len() && same_port(#[trigger] before[i], #[trigger] before[j]);
            assert(same_port(links[i], links[j]));
        } else if port_is_taken(before, links.last()) {
            let i = choose|i: int| 0 <= i < before.len() && same_port(#[trigger] before[i], links.last());
            assert(same_port(links[i], links[links.len() - 1]));
        } else {
            assert forall|i: int, j: int| 0 <= i < j < links.len() implies !same_port(
                #[trigger] links[i],
                #[trigger] links[j],
            ) by {
                if j < before.len() {
                    assert(!same_port(before[i], before[j]));
                } else {
                    assert(!same_port(before[i], links.last()));
                }
            }
        }
    }
}

/// Whether a character may stand in an alias.
pub open spec fn is_alias_char(c: char) -> bool {
    ||| 'a' <= c && c <= 'z'
    ||| 'A' <= c && c <= 'Z'
    ||| '0' <= c && c <= '9'
    ||| c == '.' || c == '_' || c == '-'
}

/// Whether a text may be an alias: letters, digits, dots, underscores and hyphens, at
/// least one.
pub open spec fn is_alias(alias: Seq<char>) -> bool {
    alias.len() > 0 && forall|i: int| 0 <= i < alias.len() ==> is_alias_char(#[trigger] alias[i])
}

/// Whether a text may be an alias.
pub fn alias_is_valid(alias: &str) -> (yes: bool)
    ensures
        yes == is_alias(alias@),
{
    let chars = text::chars_of(alias);
    if chars.len() == 0 {
        return false;
    }
    let mut i: usize = 0;
    while i < chars.len()
        invariant
            i <= chars@.len(),
            chars@ == alias@,
            forall|j: int| 0 <= j < i ==> is_alias_char(#[trigger] alias@[j]),
        decreases chars.len() - i,
    {
        let c = chars[i];
        if !(('a' <= c && c <= 'z') || ('A' <= c && c <= 'Z') || ('0' <= c && c <= '9') || c == '.'
            || c == '_' || c == '-') {
            assert(!is_alias_char(alias@[i as int]));
            return false;
        }
        i = i + 1;
    }
    true
}

/// The first alias that may not be one.
pub open spec fn first_bad_alias(links: Seq<NetworkLink>) -> Option<Seq<char>>
    decreases links.len(),
{
    if links.len() == 0 {
        None
    } else if !is_alias(links[0].alias@) {
        Some(links[0].alias@)
    } else {
        first_bad_alias(links.skip(1))
    }
}

/// What a caller with a bad alias may do instead.
pub open spec fn alias_remedy() -> Seq<char> {
    "use a valid DNS label instead (allowed: letters, digits, '.', '_', '-')"@
}

/// Refuses links with an alias that no host name may have.
pub fn require_aliases_are_valid(links: &[NetworkLink]) -> (outcome: Result<(), RightsizeError>)
    ensures
        match outcome {
            Ok(()) => first_bad_alias(links@) is None,
            Err(error) => first_bad_alias(links@) matches Some(alias) && error@ == unsupported(
                messages::bad_alias(alias),
                Some(alias_remedy()),
            ),
        },
{
    let mut i: usize = 0;
    assert(links@.skip(0) =~= links@);
    while i < links.len()
        invariant
            i <= links@.len(),
            first_bad_alias(links@) == first_bad_alias(links@.skip(i as int)),
        decreases links.len() - i,
    {
        assert(links@.skip(i as int)[0] == links@[i as int]);
        assert(links@.skip(i as int).skip(1) =~= links@.skip(i + 1));
        if !alias_is_valid(links[i].alias.as_str()) {
            let feature = messages::bad_alias_text(links[i].alias.as_str());
            return Err(
                RightsizeError::Unsupported {
                    feature,
                    backend: "microsandbox".to_owned(),
                    remedy: Some(
                        "use a valid DNS label instead (allowed: letters, digits, '.', '_', '-')".to_owned(),
                    ),
                },
            );
        }
        i = i + 1;
    }
    Ok(())
}

/// Refuses links that cannot be installed: first those that take the same port, then those
/// with a bad alias.
pub fn require_installable(links: &[NetworkLink]) -> (outcome: Result<(), RightsizeError>)
    ensures
        match outcome {
            Ok(()) => first_duplicate(links@) is None && first_bad_alias(links@) is None,
            Err(error) => match first_duplicate(links@) {
                Some(port) => error@ == unsupported(messages::duplicate_port(port as nat), None),
                None => first_bad_alias(links@) matches Some(alias) && error@ == unsupported(
                    messages::bad_alias(alias),
                    Some(alias_remedy()),
                ),
            },
        },
{
    match require_no_duplicate_guest_ports(links) {
        Err(error) => Err(error),
        Ok(()) => require_aliases_are_valid(links),
    }
}

/// One step of installing links in a guest.
#[derive(Clone, Copy, Debug, PartialEq, Eq)]
pub enum LinkStep<'a> {
    /// Ask the guest for the tool that TCP links need.
    ProbeTcp,
    /// Ask the guest for the tools that UDP links need.
    ProbeUdp,
    /// Give the guest the host names of all links.
    HostNames,
    /// Start the forwarder of a UDP link, and wait until it listens.
    Forward(&'a NetworkLink),
    /// Open the tunnel of a TCP link.
    Tunnel(&'a NetworkLink),
}

/// The contents of a [`LinkStep`].
pub enum LinkStepView {
    ProbeTcp,
    ProbeUdp,
    HostNames,
    Forward(NetworkLink),
    Tunnel(NetworkLink),
}

impl<'a> View for LinkStep<'a> {
    type V = LinkStepView;

    open spec fn view(&self) -> LinkStepView {
        match self {
            LinkStep::ProbeTcp => LinkStepView::ProbeTcp,
            LinkStep::ProbeUdp => LinkStepView::ProbeUdp,
            LinkStep::HostNames => LinkStepView::HostNames,
            LinkStep::Forward(link) => LinkStepView::Forward(**link),
            LinkStep::Tunnel(link) => LinkStepView::Tunnel(**link),
        }
    }
}

/// The contents of a list of steps.
pub open spec fn steps_view(steps: Seq<LinkStep<'_>>) -> Seq<LinkStepView> {
    steps.map_values(|step: LinkStep<'_>| step@)
}

/// The probes that links call for: each protocol is probed for only where a link uses it, so
/// that an image that lacks a tool is told which of its links need it.
pub open spec fn probes_of(links: Seq<NetworkLink>) -> Seq<LinkStepView> {
    let tcp = if links_of(links, Protocol::Tcp).len() > 0 {
        seq![LinkStepView::ProbeTcp]
    } else {
        Seq::empty()
    };
    let udp = if links_of(links, Protocol::Udp).len() > 0 {
        seq![LinkStepView::ProbeUdp]
    } else {
        Seq::empty()
    };
    tcp + udp
}

/// The forwarders of the UDP links, in order.
pub open spec fn forwards_of(links: Seq<NetworkLink>) -> Seq<LinkStepView> {
    links_of(links, Protocol::Udp).map_values(|link: NetworkLink| LinkStepView::Forward(link))
}

/// The tunnels of the TCP links, in order.
pub open spec fn tunnels_of(links: Seq<NetworkLink>) -> Seq<LinkStepView> {
    links_of(links, Protocol::Tcp).map_values(|link: NetworkLink| LinkStepView::Tunnel(link))
}

/// The steps that install links, in order: the probes that they call for, the host names, the
/// forwarders and the tunnels. Without links there is nothing to do.
pub open spec fn link_plan(links: Seq<NetworkLink>) -> Seq<LinkStepView> {
    if links.len() == 0 {
        Seq::empty()
    } else {
        probes_of(links) + seq![LinkStepView::HostNames] + forwards_of(links) + tunnels_of(links)
    }
}

/// Plans the installation of links.
pub fn plan_links<'a>(links: &'a [NetworkLink]) -> (steps: Vec<LinkStep<'a>>)
    ensures
        steps_view(steps@) == link_plan(links@),
{
    let mut steps: Vec<LinkStep<'a>> = Vec::new();
    if links.len() == 0 {
        assert(steps_view(steps@) =~= link_plan(links@));
        return steps;
    }
    let (tcp, udp) = partition_links_by_protocol(links);
    let ghost tcp_links = links_of(links@, Protocol::Tcp);
    let ghost udp_links = links_of(links@, Protocol::Udp);
    assert(tcp@.len() == referenced(tcp@).len());
    assert(udp@.len() == referenced(udp@).len());
    if tcp.len() > 0 {
        steps.push(LinkStep::ProbeTcp);
    }
    if udp.len() > 0 {
        steps.push(LinkStep::ProbeUdp);
    }
    assert(steps_view(steps@) =~= probes_of(links@));
    let ghost probes = steps_view(steps@);
    steps.push(LinkStep::HostNames);
    let ghost begun = probes + seq![LinkStepView::HostNames];
    assert(steps_view(steps@) =~= begun + forwards_of(links@).take(0));
    let mut i: usize = 0;
    while i < udp.len()
        invariant
            i <= udp@.len(),
            udp@.len() == udp_links.len(),
            udp_links == links_of(links@, Protocol::Udp),
            referenced(udp@) == udp_links,
            steps_view(steps@) == begun + forwards_of(links@).take(i as int),
        decreases udp.len() - i,
    {
        let link: &'a NetworkLink = udp[i];
        assert(*link == referenced(udp@)[i as int]);
        let ghost before = steps_view(steps@);
        steps.push(LinkStep::Forward(link));
        assert(steps_view(steps@) =~= before.push(LinkStepView::Forward(*link)));
        assert(steps_view(steps@) =~= begun + forwards_of(links@).take(i + 1));
        i = i + 1;
    }
    assert(forwards_of(links@).take(i as int) =~= forwards_of(links@));
    let ghost forwarded = begun + forwards_of(links@);
    assert(steps_view(steps@) =~= forwarded + tunnels_of(links@).take(0));
    let mut j: usize = 0;
    while j < tcp.len()
        invariant
            j <= tcp@.len(),
            tcp@.len() == tcp_links.len(),
            tcp_links == links_of(links@, Protocol::Tcp),
            referenced(tcp@) == tcp_links,
            steps_view(steps@) == forwarded + tunnels_of(links@).take(j as int),
        decreases tcp.len() - j,
    {
        let link: &'a NetworkLink = tcp[j];
        assert(*link == referenced(tcp@)[j as int]);
        let ghost before = steps_view(steps@);
        steps.push(LinkStep::Tunnel(link));
        assert(steps_view(steps@) =~= before.push(LinkStepView::Tunnel(*link)));
        assert(steps_view(steps@) =~= forwarded + tunnels_of(links@).take(j + 1));
        j = j + 1;
    }
    assert(tunnels_of(links@).take(j as int) =~= tunnels_of(links@));
    steps
}

/// Plans the installation of links, or refuses them before anything is done in the guest.
pub fn begin_links<'a>(links: &'a [NetworkLink]) -> (outcome: Result<
    Vec<LinkStep<'a>>,
    RightsizeError,
>)
    ensures
        match outcome {
            Ok(steps) => first_duplicate(links@) is None && first_bad_alias(links@) is None
                && steps_view(steps@) == link_plan(links@),
            Err(error) => match first_duplicate(links@) {
                Some(port) => error@ == unsupported(messages::duplicate_port(port as nat), None),
                None => first_bad_alias(links@) matches Some(alias) && error@ == unsupported(
                    messages::bad_alias(alias),
                    Some(alias_remedy()),
                ),
            },
        },
{
    match require_installable(links) {
        Err(error) => Err(error),
        Ok(()) => Ok(plan_links(links)),
    }
}

/// The links of a protocol are those among the links that use it.
proof fn lemma_links_of(links: Seq<NetworkLink>, protocol: Protocol, link: NetworkLink)
    ensures
        links_of(links, protocol).contains(link) <==> links.contains(link) && link.protocol
            == protocol,
    decreases links.len(),
{
    if links.len() > 0 {
        let rest = links.drop_last();
        let found = links_of(rest, protocol);
        lemma_links_of(rest, protocol, link);
        assert(links =~= rest.push(links.last()));
        if rest.contains(link) {
            let i = choose|i: int| 0 <= i < rest.len() && rest[i] == link;
            assert(links[i] == link);
        }
        if links.contains(link) && link != links.last() {
            let i = choose|i: int| 0 <= i < links.len() && links[i] == link;
            assert(rest[i] == link);
        }
        if links.last().protocol == protocol {
            let all = found.push(links.last());
            assert(all.last() == links.last());
            if found.contains(link) {
                let i = choose|i: int| 0 <= i < found.len() && found[i] == link;
                assert(all[i] == link);
            }
            if all.contains(link) && link != links.last() {
                let i = choose|i: int| 0 <= i < all.len() && all[i] == link;
                assert(found[i] == link);
            }
        }
    }
}

/// A protocol is probed for exactly where one of the links uses it.
pub proof fn law_only_what_is_used_is_probed(links: Seq<NetworkLink>)
    ensures
        link_plan(links).contains(LinkStepView::ProbeTcp) <==> exists|i: int|
            0 <= i < links.len() && (#[trigger] links[i]).protocol == Protocol::Tcp,
        link_plan(links).contains(LinkStepView::ProbeUdp) <==> exists|i: int|
            0 <= i < links.len() && (#[trigger] links[i]).protocol == Protocol::Udp,
{
    let plan = link_plan(links);
    let tcp = links_of(links, Protocol::Tcp);
    let udp = links_of(links, Protocol::Udp);
    if tcp.len() > 0 {
        assert(tcp.contains(tcp[0]));
        lemma_links_of(links, Protocol::Tcp, tcp[0]);
        assert(links.len() > 0);
        assert(plan[0] == LinkStepView::ProbeTcp);
    }
    if udp.len() > 0 {
        assert(udp.contains(udp[0]));
        lemma_links_of(links, Protocol::Udp, udp[0]);
        assert(links.len() > 0);
        assert(plan[probes_of(links).len() - 1] == LinkStepView::ProbeUdp);
    }
    assert forall|i: int| 0 <= i < links.len() implies (if (#[trigger] links[i]).protocol
        == Protocol::Tcp {
        tcp.len() > 0
    } else {
        udp.len() > 0
    }) by {
        assert(links.contains(links[i]));
        lemma_links_of(links, links[i].protocol, links[i]);
    }
    if plan.contains(LinkStepView::ProbeTcp) && tcp.len() == 0 {
        let k = choose|k: int| 0 <= k < plan.len() && plan[k] == LinkStepView::ProbeTcp;
        assert(plan[k] != LinkStepView::ProbeTcp);
    }
    if plan.contains(LinkStepView::ProbeUdp) && udp.len() == 0 {
        let k = choose|k: int| 0 <= k < plan.len() && plan[k] == LinkStepView::ProbeUdp;
        assert(plan[k] != LinkStepView::ProbeUdp);
    }
}

/// The rank of a step: what has a lower one comes first.
pub open spec fn link_rank(step: LinkStepView) -> int {
    match step {
        LinkStepView::ProbeTcp => 0,
        LinkStepView::ProbeUdp => 1,
        LinkStepView::HostNames => 2,
        LinkStepView::Forward(_) => 3,
        LinkStepView::Tunnel(_) => 4,
    }
}

/// The steps follow one another in one order: nothing in a guest is changed before every probe
/// of the plan was passed, no forwarder is started before the host names are known, and no
/// tunnel is opened before every forwarder listens.
pub proof fn law_links_are_installed_in_order(links: Seq<NetworkLink>, i: int, j: int)
    requires
        0 <= i <= j < link_plan(links).len(),
    ensures
        link_rank(link_plan(links)[i]) <= link_rank(link_plan(links)[j]),
{
    let probes = probes_of(links);
    let names = probes + seq![LinkStepView::HostNames];
    let forwarded = names + forwards_of(links);
    assert(link_plan(links) == forwarded + tunnels_of(links));
}

/// Every link is installed in the way of its protocol, and nothing else is.
pub proof fn law_every_link_is_installed(links: Seq<NetworkLink>, link: NetworkLink)
    ensures
        link_plan(links).contains(LinkStepView::Forward(link)) <==> links.contains(link)
            && link.protocol == Protocol::Udp,
        link_plan(links).contains(LinkStepView::Tunnel(link)) <==> links.contains(link)
            && link.protocol == Protocol::Tcp,
{
    lemma_links_of(links, Protocol::Udp, link);
    lemma_links_of(links, Protocol::Tcp, link);
    let plan = link_plan(links);
    let tcp = links_of(links, Protocol::Tcp);
    let udp = links_of(links, Protocol::Udp);
    let before = probes_of(links).len() + 1;
    if plan.contains(LinkStepView::Forward(link)) {
        let k = choose|k: int| 0 <= k < plan.len() && plan[k] == LinkStepView::Forward(link);
        assert(udp[k - before] == link);
    }
    if plan.contains(LinkStepView::Tunnel(link)) {
        let k = choose|k: int| 0 <= k < plan.len() && plan[k] == LinkStepView::Tunnel(link);
        assert(tcp[k - before - udp.len()] == link);
    }
    if links.contains(link) {
        if link.protocol == Protocol::Udp {
            let k = choose|k: int| 0 <= k < udp.len() && udp[k] == link;
            assert(plan[before + k] == LinkStepView::Forward(link));
        } else {
            let k = choose|k: int| 0 <= k < tcp.len() && tcp[k] == link;
            assert(plan[before + udp.len() + k] == LinkStepView::Tunnel(link));
        }
    }
}

/// Links are refused for an alias exactly where one of them has an alias that may not be one.
pub proof fn law_bad_aliases_are_found(links: Seq<NetworkLink>)
    ensures
        first_bad_alias(links) is None <==> forall|i: int|
            0 <= i < links.len() ==> is_alias((#[trigger] links[i]).alias@),
    decreases links.len(),
{
    if links.len() > 0 {
        let rest = links.skip(1);
        law_bad_aliases_are_found(rest);
        if first_bad_alias(links) is None {
            assert forall|i: int| 0 <= i < links.len() implies is_alias(
                (#[trigger] links[i]).alias@,
            ) by {
                if i > 0 {
                    assert(is_alias(rest[i - 1].alias@));
                }
            }
        } else if is_alias(links[0].alias@) {
            let i = choose|i: int| 0 <= i < rest.len() && !is_alias((#[trigger] rest[i]).alias@);
            assert(!is_alias(links[i + 1].alias@));
        }
    }
}

/// An alias holds nothing that could end a quoted string of a shell or part its words.
pub proof fn law_alias_is_safe_in_a_shell(alias: Seq<char>, i: int)
    requires
        is_alias(alias),
        0 <= i < alias.len(),
    ensures
        alias[i] != '\'' && alias[i] != '"' && alias[i] != '\\' && alias[i] != '$' && alias[i] != '`'
            && alias[i] != '\n' && !text::is_white_space(alias[i]),
{
    assert(is_alias_char(alias[i]));
}

/// The shell script that says whether a guest has the tool that TCP links need.
pub const NC_PROBE_SCRIPT: &'static str = "command -v nc";

/// The shell script that says whether a guest has the tools that UDP links need.
pub const UDP_NC_PROBE_SCRIPT: &'static str = "command -v nc >/dev/null && command -v timeout >/dev/null && nc --help 2>&1 | grep -q -- '-e PROG' && nc --help 2>&1 | grep -q -- '-u'";

/// What a caller whose image lacks a tool may do instead.
pub open spec fn image_remedy() -> Seq<char> {
    "run this test with RIGHTSIZE_BACKEND=docker instead"@
}

/// The arguments that have a guest run a shell script.
pub fn shell_command(script: &str) -> (cmd: Vec<String>)
    ensures
        text::texts(cmd@) == seq!["sh"@, "-c"@, script@],
{
    let mut cmd: Vec<String> = Vec::new();
    cmd.push("sh".to_owned());
    cmd.push("-c".to_owned());
    cmd.push(script.to_owned());
    assert(text::texts(cmd@) =~= seq!["sh"@, "-c"@, script@]);
    cmd
}

/// The error of an image that lacks a tool.
fn image_lacks(feature: String) -> (error: RightsizeError)
    ensures
        error@ == unsupported(feature@, Some(image_remedy())),
{
    RightsizeError::Unsupported {
        feature,
        backend: "microsandbox".to_owned(),
        remedy: Some("run this test with RIGHTSIZE_BACKEND=docker instead".to_owned()),
    }
}

/// Judges the probe for TCP links.
pub fn require_nc_available(image: &str, probe: &ExecResult) -> (outcome: Result<
    (),
    RightsizeError,
>)
    ensures
        match outcome {
            Ok(()) => probe.exit_code == 0,
            Err(error) => probe.exit_code != 0 && error@ == unsupported(
                messages::links_need_nc(image@),
                Some(image_remedy()),
            ),
        },
{
    if probe.exit_code != 0 {
        Err(image_lacks(messages::links_need_nc_text(image)))
    } else {
        Ok(())
    }
}

/// Judges the probe for UDP links.
pub fn require_udp_nc_available(image: &str, probe: &ExecResult) -> (outcome: Result<
    (),
    RightsizeError,
>)
    ensures
        match outcome {
            Ok(()) => probe.exit_code == 0,
            Err(error) => probe.exit_code != 0 && error@ == unsupported(
                messages::udp_links_need_nc(image@),
                Some(image_remedy()),
            ),
        },
{
    if probe.exit_code != 0 {
        Err(image_lacks(messages::udp_links_need_nc_text(image)))
    } else {
        Ok(())
    }
}

/// The aliases of the links, each once, in the order in which they first come.
pub open spec fn distinct_aliases_spec(links: Seq<NetworkLink>) -> Seq<Seq<char>>
    decreases links.len(),
{
    if links.len() == 0 {
        Seq::empty()
    } else {
        let before = distinct_aliases_spec(links.drop_last());
        if before.contains(links.last().alias@) {
            before
        } else {
            before.push(links.last().alias@)
        }
    }
}

/// The aliases of the links, each once, in the order in which they first come.
pub fn distinct_aliases(links: &[NetworkLink]) -> (aliases: Vec<String>)
    ensures
        text::texts(aliases@) == distinct_aliases_spec(links@),
{
    let mut aliases: Vec<String> = Vec::new();
    let mut i: usize = 0;
    assert(links@.take(0) =~= Seq::empty());
    assert(text::texts(aliases@) =~= Seq::empty());
    while i < links.len()
        invariant
            i <= links@.len(),
            text::texts(aliases@) == distinct_aliases_spec(links@.take(i as int)),
        decreases links.len() - i,
    {
        assert(links@.take(i + 1).drop_last() =~= links@.take(i as int));
        if !ls_json::holds_text(&aliases, links[i].alias.as_str()) {
            let ghost before = text::texts(aliases@);
            aliases.push(links[i].alias.clone());
            assert(text::texts(aliases@) =~= before.push(links@[i as int].alias@));
        }
        i = i + 1;
    }
    assert(links@.take(i as int) =~= links@);
    aliases
}

/// Every alias of the links is written once, and nothing else is.
pub proof fn law_each_alias_once(links: Seq<NetworkLink>)
    ensures
        distinct_aliases_spec(links).no_duplicates(),
        forall|i: int|
            0 <= i < links.len() ==> distinct_aliases_spec(links).contains(
                (#[trigger] links[i]).alias@,
            ),
        forall|k: int|
            0 <= k < distinct_aliases_spec(links).len() ==> exists|i: int|
                0 <= i < links.len() && (#[trigger] links[i]).alias@ == #[trigger] distinct_aliases_spec(
                    links,
                )[k],
    decreases links.len(),
{
    if links.len() > 0 {
        let rest = links.drop_last();
        law_each_alias_once(rest);
        let before = distinct_aliases_spec(rest);
        let now = distinct_aliases_spec(links);
        assert forall|i: int| 0 <= i < links.len() implies now.contains(
            (#[trigger] links[i]).alias@,
        ) by {
            if i < rest.len() {
                assert(rest[i] == links[i]);
                let k = before.index_of(links[i].alias@);
                assert(before.contains(rest[i].alias@));
                assert(now[k] == before[k]);
            } else if !before.contains(links.last().alias@) {
                assert(now[before.len() as int] == links.last().alias@);
            }
        }
        assert forall|k: int| 0 <= k < now.len() implies exists|i: int|
            0 <= i < links.len() && (#[trigger] links[i]).alias@ == #[trigger] now[k] by {
            if k < before.len() {
                let i = choose|i: int| 0 <= i < rest.len() && (#[trigger] rest[i]).alias@ == before[k];
                assert(links[i].alias@ == now[k]);
            } else {
                assert(links[links.len() - 1].alias@ == now[k]);
            }
        }
    }
}

/// The shell command that adds an alias of the guest itself to its host names.
pub open spec fn hosts_entry(alias: Seq<char>) -> Seq<char> {
    "echo '127.0.0.1 "@ + alias + "' >> /etc/hosts"@
}

/// The shell command that adds an alias of the guest itself to its host names.
fn hosts_entry_text(alias: &str) -> (script: String)
    ensures
        script@ == hosts_entry(alias@),
{
    let mut script = "echo '127.0.0.1 ".to_owned();
    script.append(alias);
    script.append("' >> /etc/hosts");
    script
}

/// The shell script that adds the aliases of the links to the host names of a guest.
pub open spec fn hosts_script_spec(links: Seq<NetworkLink>) -> Seq<char> {
    text::join_spec(
        distinct_aliases_spec(links).map_values(|alias: Seq<char>| hosts_entry(alias)),
        "; "@,
    )
}

/// Writes the shell script that adds the aliases of the links to the host names of a guest.
pub fn hosts_script(links: &[NetworkLink]) -> (script: String)
    ensures
        script@ == hosts_script_spec(links@),
{
    let aliases = distinct_aliases(links);
    let ghost wanted = distinct_aliases_spec(links@).map_values(
        |alias: Seq<char>| hosts_entry(alias),
    );
    let mut entries: Vec<String> = Vec::new();
    let mut i: usize = 0;
    assert(text::texts(entries@) =~= wanted.take(0));
    while i < aliases.len()
        invariant
            i <= aliases@.len(),
            text::texts(aliases@) == distinct_aliases_spec(links@),
            wanted == distinct_aliases_spec(links@).map_values(
                |alias: Seq<char>| hosts_entry(alias),
            ),
            text::texts(entries@) == wanted.take(i as int),
        decreases aliases.len() - i,
    {
        let ghost before = text::texts(entries@);
        let entry = hosts_entry_text(aliases[i].as_str());
        assert(text::texts(aliases@)[i as int] == aliases@[i as int]@);
        assert(wanted[i as int] == hosts_entry(aliases@[i as int]@));
        entries.push(entry);
        assert(text::texts(entries@) =~= before.push(entry@));
        assert(text::texts(entries@) =~= wanted.take(i + 1));
        i = i + 1;
    }
    assert(wanted.take(i as int) =~= wanted);
    text::join(entries.as_slice(), "; ")
}

/// Judges the command that added the aliases.
pub fn after_hosts_install(name: &str, result: &ExecResult) -> (outcome: Result<
    (),
    RightsizeError,
>)
    ensures
        match outcome {
            Ok(()) => result.exit_code == 0,
            Err(error) => result.exit_code != 0 && error@ == ErrorView::Backend(
                messages::aliases_not_installed(name@, result.stderr@),
            ),
        },
{
    if result.exit_code != 0 {
        Err(
            RightsizeError::Backend(
                messages::aliases_not_installed_text(name, result.stderr.as_str()),
            ),
        )
    } else {
        Ok(())
    }
}

/// The shell script that forwards datagrams from a port of the guest to a port of the host,
/// one listener after the other. No double quote stands in it.
pub const UDP_LINK_FORWARDER_SCRIPT: &'static str = "P=$1; HP=$2\nH=$(awk -v n=host.microsandbox.internal '$2 == n && $1 ~ /^[0-9.]+$/ { print $1; exit }' /etc/hosts)\n: ${H:=host.microsandbox.internal}\nwhile true; do\n  nc -u -l -p $P -e timeout 60 nc -u $H $HP &\n  pid=$!\n  while [ -e /proc/$pid ] && grep -q rz-udp-link /proc/$pid/cmdline 2>/dev/null; do sleep 0.01; done\n  while [ -e /proc/$pid ] && tr '\\0' ' ' < /proc/$pid/cmdline 2>/dev/null | grep -q -- ' -l '; do sleep 0.05; done\n  [ -e /proc/$pid ] || sleep 0.2\ndone\n";

/// Where a guest keeps the forwarder of a port.
pub open spec fn forwarder_script_path(guest_port: nat) -> Seq<char> {
    "/tmp/rz-udp-link-"@ + text::decimal(guest_port) + ".sh"@
}

/// Where a guest keeps the forwarder of a port.
fn forwarder_script_path_text(guest_port: u64) -> (script: String)
    ensures
        script@ == forwarder_script_path(guest_port as nat),
{
    let mut script = "/tmp/rz-udp-link-".to_owned();
    script.append(text::decimal_text(guest_port).as_str());
    script.append(".sh");
    script
}

/// Where a guest keeps the log of the forwarder of a port.
pub open spec fn forwarder_log_path(guest_port: nat) -> Seq<char> {
    "/tmp/rz-udp-link-"@ + text::decimal(guest_port) + ".log"@
}

/// Where a guest keeps the log of the forwarder of a port.
pub fn forwarder_log_path_text(guest_port: u64) -> (script: String)
    ensures
        script@ == forwarder_log_path(guest_port as nat),
{
    let mut script = "/tmp/rz-udp-link-".to_owned();
    script.append(text::decimal_text(guest_port).as_str());
    script.append(".log");
    script
}

/// The shell script that writes a forwarder and starts it.
pub open spec fn udp_install(
    script_path: Seq<char>,
    forwarder: Seq<char>,
    guest_port: nat,
    target_host_port: nat,
    log_path: Seq<char>,
) -> Seq<char> {
    "cat > "@ + script_path + " <<'RZ_UDP_LINK_EOF'\n"@ + forwarder
        + "RZ_UDP_LINK_EOF\nnohup sh "@ + script_path + " "@ + text::decimal(guest_port) + " "@
        + text::decimal(target_host_port) + " >"@ + log_path + " 2>&1 &"@
}

/// The shell script that writes a forwarder and starts it.
fn udp_install_text(
    script_path: &str,
    forwarder: &str,
    guest_port: u64,
    target_host_port: u64,
    log_path: &str,
) -> (script: String)
    ensures
        script@ == udp_install(
            script_path@,
            forwarder@,
            guest_port as nat,
            target_host_port as nat,
            log_path@,
        ),
{
    let mut script = "cat > ".to_owned();
    script.append(script_path);
    script.append(" <<'RZ_UDP_LINK_EOF'\n");
    script.append(forwarder);
    script.append("RZ_UDP_LINK_EOF\nnohup sh ");
    script.append(script_path);
    script.append(" ");
    script.append(text::decimal_text(guest_port).as_str());
    script.append(" ");
    script.append(text::decimal_text(target_host_port).as_str());
    script.append(" >");
    script.append(log_path);
    script.append(" 2>&1 &");
    script
}

/// The shell script that installs the forwarder of a link.
pub open spec fn forwarder_install(link: NetworkLink) -> Seq<char> {
    let port = link.guest_port as nat;
    udp_install(
        forwarder_script_path(port),
        UDP_LINK_FORWARDER_SCRIPT@,
        port,
        link.target_host_port as nat,
        forwarder_log_path(port),
    )
}

/// Writes the shell script that installs the forwarder of a link.
pub fn forwarder_install_script(link: &NetworkLink) -> (script: String)
    ensures
        script@ == forwarder_install(*link),
{
    let port: u64 = link.guest_port as u64;
    let script_path = forwarder_script_path_text(port);
    let log_path = forwarder_log_path_text(port);
    udp_install_text(
        script_path.as_str(),
        UDP_LINK_FORWARDER_SCRIPT,
        port,
        link.target_host_port as u64,
        log_path.as_str(),
    )
}

/// Judges the command that installed a forwarder.
pub fn after_forwarder_install(guest_port: u16, name: &str, result: &ExecResult) -> (outcome:
    Result<(), RightsizeError>)
    ensures
        match outcome {
            Ok(()) => result.exit_code == 0,
            Err(error) => result.exit_code != 0 && error@ == ErrorView::Backend(
                messages::forwarder_not_installed(guest_port as nat, name@, result.stderr@),
            ),
        },
{
    if result.exit_code != 0 {
        Err(
            RightsizeError::Backend(
                messages::forwarder_not_installed_text(
                    guest_port as u64,
                    name,
                    result.stderr.as_str(),
                ),
            ),
        )
    } else {
        Ok(())
    }
}

/// The character of a hexadecimal digit in upper case.
pub open spec fn upper_digit_char(digit: int) -> char {
    if digit < 10 {
        (48 + digit) as char
    } else {
        (55 + digit) as char
    }
}

/// A port as four hexadecimal digits in upper case, as the kernel lists it.
pub open spec fn port_hex(port: u16) -> Seq<char> {
    seq![
        upper_digit_char(port as int / 4096),
        upper_digit_char(port as int / 256 % 16),
        upper_digit_char(port as int / 16 % 16),
        upper_digit_char(port as int % 16),
    ]
}

/// The character of one digit below sixteen, in upper case.
fn upper_digit(value: u8) -> (c: char)
    requires
        value < 16,
    ensures
        c == upper_digit_char(value as int),
{
    if value < 10 {
        (48 + value) as char
    } else {
        (55 + value) as char
    }
}

/// A port as four hexadecimal digits in upper case.
pub fn port_hex_text(port: u16) -> (hex: String)
    ensures
        hex@ == port_hex(port),
{
    let mut hex = String::new();
    hex.push(upper_digit((port / 4096) as u8));
    hex.push(upper_digit((port / 256 % 16) as u8));
    hex.push(upper_digit((port / 16 % 16) as u8));
    hex.push(upper_digit((port % 16) as u8));
    assert(hex@ =~= port_hex(port));
    hex
}

/// The shell script that says whether a UDP port is bound in a guest.
pub open spec fn bound_probe(hex: Seq<char>) -> Seq<char> {
    "awk -v p=':"@ + hex
        + "' 'NR>1 && substr($2, length($2)-4) == p {f=1} END {exit !f}' /proc/net/udp /proc/net/udp6"@
}

/// The shell script that says whether a UDP port is bound in a guest.
fn bound_probe_text(hex: &str) -> (script: String)
    ensures
        script@ == bound_probe(hex@),
{
    let mut script = "awk -v p=':".to_owned();
    script.append(hex);
    script.append("' 'NR>1 && substr($2, length($2)-4) == p {f=1} END {exit !f}' /proc/net/udp /proc/net/udp6");
    script
}

/// Writes the shell script that says whether a UDP port is bound in a guest.
pub fn bound_probe_script(guest_port: u16) -> (script: String)
    ensures
        script@ == bound_probe(port_hex(guest_port)),
{
    bound_probe_text(port_hex_text(guest_port).as_str())
}

/// The shell script that prints the end of a log.
pub open spec fn log_tail(log_path: Seq<char>) -> Seq<char> {
    "tail -c 2000 "@ + log_path + " 2>/dev/null"@
}

/// The shell script that prints the end of a log.
pub fn log_tail_text(log_path: &str) -> (script: String)
    ensures
        script@ == log_tail(log_path@),
{
    let mut script = "tail -c 2000 ".to_owned();
    script.append(log_path);
    script.append(" 2>/dev/null");
    script
}

/// What is to be done about a forwarder that was installed.
#[derive(Clone, Copy, Debug, PartialEq, Eq, Structural)]
pub enum BindStep {
    /// It is up.
    Bound,
    /// It took too long.
    TimedOut,
    /// Wait, then look again.
    Wait,
}

/// Decides what is to be done about a forwarder that was installed.
pub fn bind_step(probe: &ExecResult, elapsed_ms: u64, timeout_ms: u64) -> (step: BindStep)
    ensures
        step == (if probe.exit_code == 0 {
            BindStep::Bound
        } else if elapsed_ms >= timeout_ms {
            BindStep::TimedOut
        } else {
            BindStep::Wait
        }),
{
    if probe.exit_code == 0 {
        BindStep::Bound
    } else if elapsed_ms >= timeout_ms {
        BindStep::TimedOut
    } else {
        BindStep::Wait
    }
}

/// The error of a forwarder that did not come up in time; `timeout` is the time it had, and
/// `tail` the end of its log.
pub fn forwarder_not_bound_error(guest_port: u16, name: &str, timeout: &str, tail: &str) -> (error:
    RightsizeError)
    ensures
        error@ == ErrorView::Backend(
            messages::forwarder_not_bound(
                guest_port as nat,
                name@,
                timeout@,
                text::trim_spec(tail@),
            ),
        ),
{
    let trimmed = text::trim(tail);
    RightsizeError::Backend(
        messages::forwarder_not_bound_text(guest_port as u64, name, timeout, trimmed.as_str()),
    )
}

/// Whether a text is free of double quotes.
pub open spec fn free_of_double_quotes(value: Seq<char>) -> bool {
    forall|i: int| 0 <= i < value.len() ==> #[trigger] value[i] != '"'
}

/// Decimal notation is free of double quotes.
proof fn lemma_decimal_free(n: nat)
    ensures
        free_of_double_quotes(text::decimal(n)),
    decreases n,
{
    if n >= 10 {
        lemma_decimal_free(n / 10);
    }
}

/// The forwarder is free of double quotes.
proof fn lemma_forwarder_free()
    ensures
        free_of_double_quotes(UDP_LINK_FORWARDER_SCRIPT@),
{
    reveal_strlit(
        "P=$1; HP=$2\nH=$(awk -v n=host.microsandbox.internal '$2 == n && $1 ~ /^[0-9.]+$/ { print $1; exit }' /etc/hosts)\n: ${H:=host.microsandbox.internal}\nwhile true; do\n  nc -u -l -p $P -e timeout 60 nc -u $H $HP &\n  pid=$!\n  while [ -e /proc/$pid ] && grep -q rz-udp-link /proc/$pid/cmdline 2>/dev/null; do sleep 0.01; done\n  while [ -e /proc/$pid ] && tr '\\0' ' ' < /proc/$pid/cmdline 2>/dev/null | grep -q -- ' -l '; do sleep 0.05; done\n  [ -e /proc/$pid ] || sleep 0.2\ndone\n",
    );
}

/// No shell script that installs a UDP link, whatever its ports, holds a double quote: not
/// the probe for the tools, not the installation of the forwarder, not the look for its port,
/// and not the look at its log.
pub proof fn law_udp_scripts_hold_no_double_quote(link: NetworkLink)
    ensures
        free_of_double_quotes(UDP_NC_PROBE_SCRIPT@),
        free_of_double_quotes(forwarder_install(link)),
        free_of_double_quotes(bound_probe(port_hex(link.guest_port))),
        free_of_double_quotes(log_tail(forwarder_log_path(link.guest_port as nat))),
{
    reveal_strlit(
        "command -v nc >/dev/null && command -v timeout >/dev/null && nc --help 2>&1 | grep -q -- '-e PROG' && nc --help 2>&1 | grep -q -- '-u'",
    );
    reveal_strlit("/tmp/rz-udp-link-");
    reveal_strlit(".sh");
    reveal_strlit(".log");
    reveal_strlit("cat > ");
    reveal_strlit(" <<'RZ_UDP_LINK_EOF'\n");
    reveal_strlit("RZ_UDP_LINK_EOF\nnohup sh ");
    reveal_strlit(" ");
    reveal_strlit(" >");
    reveal_strlit(" 2>&1 &");
    reveal_strlit("awk -v p=':");
    reveal_strlit("' 'NR>1 && substr($2, length($2)-4) == p {f=1} END {exit !f}' /proc/net/udp /proc/net/udp6");
    reveal_strlit("tail -c 2000 ");
    reveal_strlit(" 2>/dev/null");
    lemma_forwarder_free();
    lemma_decimal_free(link.guest_port as nat);
    lemma_decimal_free(link.target_host_port as nat);
    let script_path = forwarder_script_path(link.guest_port as nat);
    let log_path = forwarder_log_path(link.guest_port as nat);
    assert(free_of_double_quotes(script_path));
    assert(free_of_double_quotes(log_path));
    assert(free_of_double_quotes(port_hex(link.guest_port)));
    assert(free_of_double_quotes(bound_probe(port_hex(link.guest_port))));
    assert(free_of_double_quotes(log_tail(log_path)));
    assert(free_of_double_quotes(forwarder_install(link)));
}

/// The links of a protocol keep their order and their number: they are what is left of the links
/// once the others are taken out.
pub proof fn law_links_keep_their_order(
    links: Seq<NetworkLink>,
    more: Seq<NetworkLink>,
    link: NetworkLink,
    protocol: Protocol,
)
    ensures
        links_of(Seq::empty(), protocol) == Seq::<NetworkLink>::empty(),
        link.protocol == protocol ==> links_of(seq![link], protocol) == seq![link],
        link.protocol != protocol ==> links_of(seq![link], protocol) == Seq::<
            NetworkLink,
        >::empty(),
        links_of(links + more, protocol) == links_of(links, protocol) + links_of(more, protocol),
    decreases more.len(),
{
    let one = seq![link];
    assert(one.drop_last() =~= Seq::empty());
    assert(links_of(one.drop_last(), protocol) =~= Seq::empty());
    assert(Seq::<NetworkLink>::empty().push(link) =~= one);
    let all = links + more;
    if more.len() == 0 {
        assert(all =~= links);
        assert(links_of(links, protocol) + links_of(more, protocol) =~= links_of(links, protocol));
    } else {
        let fewer = more.drop_last();
        law_links_keep_their_order(links, fewer, link, protocol);
        assert(all.drop_last() =~= links + fewer);
        assert(all.last() == more.last());
        assert(links_of(all, protocol) =~= links_of(links, protocol) + links_of(more, protocol));
    }
}

/// Every link is one of TCP or one of UDP, so that parting the links loses none.
pub proof fn law_parting_loses_no_link(links: Seq<NetworkLink>)
    ensures
        links_of(links, Protocol::Tcp).len() + links_of(links, Protocol::Udp).len() == links.len(),
    decreases links.len(),
{
    if links.len() > 0 {
        law_parting_loses_no_link(links.drop_last());
    }
}

/// The port that is told is that of the first link whose number and protocol a link before it
/// has; links of which no two share both are not refused.
pub proof fn law_the_first_duplicate_is_told(links: Seq<NetworkLink>, i: int, j: int)
    requires
        0 <= i < j < links.len(),
    ensures
        links[i].protocol == links[j].protocol && links[i].guest_port == links[j].guest_port && (
        forall|a: int, b: int|
            0 <= a < b < j ==> !((#[trigger] links[a]).protocol == (
            #[trigger] links[b]).protocol && links[a].guest_port == links[b].guest_port))
            ==> first_duplicate(links) == Some(links[j].guest_port),
        (forall|a: int, b: int|
            0 <= a < b < links.len() ==> !((#[trigger] links[a]).protocol == (
            #[trigger] links[b]).protocol && links[a].guest_port == links[b].guest_port))
            ==> first_duplicate(links) is None,
{
    law_duplicates_are_found(links);
    if first_duplicate(links) is Some {
        let (a, b) = choose|a: int, b: int|
            0 <= a < b < links.len() && same_port(#[trigger] links[a], #[trigger] links[b]);
        assert(links[a].protocol == links[b].protocol && links[a].guest_port
            == links[b].guest_port);
    }
    let head = links.take(j);
    let longer = links.take(j + 1);
    if links[i].protocol == links[j].protocol && links[i].guest_port == links[j].guest_port && (
    forall|a: int, b: int|
        0 <= a < b < j ==> !((#[trigger] links[a]).protocol == (#[trigger] links[b]).protocol
            && links[a].guest_port == links[b].guest_port)) {
        law_duplicates_are_found(head);
        if first_duplicate(head) is Some {
            let (a, b) = choose|a: int, b: int|
                0 <= a < b < head.len() && same_port(#[trigger] head[a], #[trigger] head[b]);
            assert(links[a].protocol == links[b].protocol && links[a].guest_port
                == links[b].guest_port);
        }
        assert(longer.drop_last() =~= head);
        assert(longer.last() == links[j]);
        assert(same_port(head[i], links[j]));
        lemma_first_duplicate_stays(links, j + 1);
    }
}

/// An alias may be exactly what has at least one character, each a letter, a digit, a dot, an
/// underscore or a hyphen.
pub proof fn law_what_an_alias_may_be(alias: Seq<char>)
    ensures
        is_alias(alias) <==> alias.len() > 0 && (forall|i: int|
            0 <= i < alias.len() ==> ('a' <= (#[trigger] alias[i]) <= 'z' || 'A' <= alias[i] <= 'Z'
                || '0' <= alias[i] <= '9' || alias[i] == '.' || alias[i] == '_' || alias[i] == '-')),
{
    if is_alias(alias) {
        assert forall|i: int| 0 <= i < alias.len() implies ('a' <= (#[trigger] alias[i]) <= 'z'
            || 'A' <= alias[i] <= 'Z' || '0' <= alias[i] <= '9' || alias[i] == '.' || alias[i]
            == '_' || alias[i] == '-') by {
            assert(is_alias_char(alias[i]));
        }
    }
}

/// The alias that is told is that of the first link whose alias may not be one.
pub proof fn law_the_first_bad_alias_is_told(links: Seq<NetworkLink>, at: int)
    requires
        0 <= at < links.len(),
        !is_alias(links[at].alias@),
        forall|i: int| 0 <= i < at ==> is_alias((#[trigger] links[i]).alias@),
    ensures
        first_bad_alias(links) == Some(links[at].alias@),
    decreases at,
{
    if at > 0 {
        let rest = links.skip(1);
        assert(is_alias(links[0].alias@));
        assert forall|i: int| 0 <= i < at - 1 implies is_alias((#[trigger] rest[i]).alias@) by {
            assert(rest[i] == links[i + 1]);
        }
        assert(rest[at - 1] == links[at]);
        law_the_first_bad_alias_is_told(rest, at - 1);
    }
}

/// A request that cannot be carried out is refused in the name of this backend, with what was
/// asked for and the way around it.
pub proof fn law_refusals_name_the_backend(feature: Seq<char>, remedy: Option<Seq<char>>)
    ensures
        unsupported(feature, remedy) == ErrorView::Unsupported(feature, "microsandbox"@, remedy),
        text::contains_text(image_remedy(), "RIGHTSIZE_BACKEND=docker"@),
        text::contains_text(alias_remedy(), "letters, digits, '.', '_', '-'"@),
{
    reveal_strlit("run this test with RIGHTSIZE_BACKEND=docker instead");
    reveal_strlit("RIGHTSIZE_BACKEND=docker");
    reveal_strlit("use a valid DNS label instead (allowed: letters, digits, '.', '_', '-')");
    reveal_strlit("letters, digits, '.', '_', '-'");
    assert(image_remedy().subrange(19, 43) =~= "RIGHTSIZE_BACKEND=docker"@);
    assert(text::occurs_at(image_remedy(), "RIGHTSIZE_BACKEND=docker"@, 19));
    assert(alias_remedy().subrange(40, 70) =~= "letters, digits, '.', '_', '-'"@);
    assert(text::occurs_at(alias_remedy(), "letters, digits, '.', '_', '-'"@, 40));
}

/// Without links nothing is done. With links the plan has the probes, the host names once, one
/// forwarder for each UDP link and one tunnel for each TCP link, the links of each protocol in
/// their order.
pub proof fn law_a_plan_has_one_step_for_each_link(links: Seq<NetworkLink>, i: int)
    ensures
        link_plan(Seq::empty()) == Seq::<LinkStepView>::empty(),
        links.len() > 0 ==> ({
            let plan = link_plan(links);
            let tcp = links_of(links, Protocol::Tcp);
            let udp = links_of(links, Protocol::Udp);
            let probes = (if tcp.len() > 0 {
                1int
            } else {
                0
            }) + (if udp.len() > 0 {
                1int
            } else {
                0
            });
            &&& plan.len() == probes + 1 + links.len()
            &&& tcp.len() > 0 ==> plan[0] == LinkStepView::ProbeTcp
            &&& udp.len() > 0 ==> plan[probes - 1] == LinkStepView::ProbeUdp
            &&& plan[probes] == LinkStepView::HostNames
            &&& 0 <= i < udp.len() ==> plan[probes + 1 + i] == LinkStepView::Forward(udp[i])
            &&& 0 <= i < tcp.len() ==> plan[probes + 1 + udp.len() + i] == LinkStepView::Tunnel(
                tcp[i],
            )
        }),
{
    law_parting_loses_no_link(links);
    assert(forwards_of(links).len() == links_of(links, Protocol::Udp).len());
    assert(tunnels_of(links).len() == links_of(links, Protocol::Tcp).len());
}

/// The aliases come in the order in which the links first have them: a link whose alias was
/// there before adds nothing, and any other adds its alias behind those before.
pub proof fn law_aliases_come_in_order(links: Seq<NetworkLink>, link: NetworkLink)
    ensures
        distinct_aliases_spec(Seq::empty()) == Seq::<Seq<char>>::empty(),
        (exists|i: int| 0 <= i < links.len() && (#[trigger] links[i]).alias@ == link.alias@)
            ==> distinct_aliases_spec(links.push(link)) == distinct_aliases_spec(links),
        (forall|i: int| 0 <= i < links.len() ==> (#[trigger] links[i]).alias@ != link.alias@)
            ==> distinct_aliases_spec(links.push(link)) == distinct_aliases_spec(links).push(
            link.alias@,
        ),
{
    law_each_alias_once(links);
    assert(links.push(link).drop_last() =~= links);
    let before = distinct_aliases_spec(links);
    if before.contains(link.alias@) {
        let k = choose|k: int| 0 <= k < before.len() && before[k] == link.alias@;
        assert(exists|i: int|
            0 <= i < links.len() && (#[trigger] links[i]).alias@ == before[k]);
    }
}

/// The script that gives a guest its host names has one command for each alias, which has the
/// name lead to the guest itself; the commands are parted by `; ` and come in the order of the
/// links.
pub proof fn law_every_alias_gets_a_host_name(links: Seq<NetworkLink>, link: NetworkLink)
    ensures
        hosts_script_spec(Seq::empty()) == Seq::<char>::empty(),
        hosts_script_spec(seq![link]) == "echo '127.0.0.1 "@ + link.alias@ + "' >> /etc/hosts"@,
        (exists|i: int| 0 <= i < links.len() && (#[trigger] links[i]).alias@ == link.alias@)
            ==> hosts_script_spec(links.push(link)) == hosts_script_spec(links),
        links.len() > 0 && (forall|i: int|
            0 <= i < links.len() ==> (#[trigger] links[i]).alias@ != link.alias@)
            ==> hosts_script_spec(links.push(link)) == hosts_script_spec(links) + "; "@
            + "echo '127.0.0.1 "@ + link.alias@ + "' >> /etc/hosts"@,
{
    let entry = |alias: Seq<char>| hosts_entry(alias);
    let one = seq![link];
    assert(one.drop_last() =~= Seq::empty());
    law_aliases_come_in_order(Seq::empty(), link);
    assert(Seq::<NetworkLink>::empty().push(link) =~= one);
    assert(distinct_aliases_spec(one) =~= seq![link.alias@]);
    let first = distinct_aliases_spec(one).map_values(entry);
    assert(first =~= seq![hosts_entry(link.alias@)]);
    text::law_joining_puts_the_separator_between(Seq::empty(), first, "; "@);
    assert(distinct_aliases_spec(Seq::empty()).map_values(entry) =~= Seq::empty());
    law_aliases_come_in_order(links, link);
    if links.len() > 0 && (forall|i: int|
        0 <= i < links.len() ==> (#[trigger] links[i]).alias@ != link.alias@) {
        law_each_alias_once(links);
        assert(distinct_aliases_spec(links).contains(links[0].alias@));
        let before = distinct_aliases_spec(links).map_values(entry);
        let all = distinct_aliases_spec(links.push(link)).map_values(entry);
        assert(before.len() > 0);
        assert(all =~= before + seq![hosts_entry(link.alias@)]);
        text::law_joining_puts_the_separator_between(
            before,
            seq![hosts_entry(link.alias@)],
            "; "@,
        );
        assert(hosts_script_spec(links.push(link)) =~= hosts_script_spec(links) + "; "@
            + "echo '127.0.0.1 "@ + link.alias@ + "' >> /etc/hosts"@);
    }
}

/// The forwarder of a link is written to a file of its own in the guest, with nothing before or
/// behind it, and started from there in the background with the port of the guest and then the
/// port of the host as its arguments; its log is a file of its own too.
pub proof fn law_a_forwarder_is_given_both_ports(link: NetworkLink)
    ensures
        ({
            let port = text::decimal(link.guest_port as nat);
            let target = text::decimal(link.target_host_port as nat);
            forwarder_install(link) == "cat > /tmp/rz-udp-link-"@ + port
                + ".sh <<'RZ_UDP_LINK_EOF'\n"@ + UDP_LINK_FORWARDER_SCRIPT@
                + "RZ_UDP_LINK_EOF\nnohup sh /tmp/rz-udp-link-"@ + port + ".sh "@ + port + " "@
                + target + " >/tmp/rz-udp-link-"@ + port + ".log 2>&1 &"@
        }),
{
    reveal_strlit("/tmp/rz-udp-link-");
    reveal_strlit(".sh");
    reveal_strlit(".log");
    reveal_strlit("cat > ");
    reveal_strlit(" <<'RZ_UDP_LINK_EOF'\n");
    reveal_strlit("RZ_UDP_LINK_EOF\nnohup sh ");
    reveal_strlit(" ");
    reveal_strlit(" >");
    reveal_strlit(" 2>&1 &");
    reveal_strlit("cat > /tmp/rz-udp-link-");
    reveal_strlit(".sh <<'RZ_UDP_LINK_EOF'\n");
    reveal_strlit("RZ_UDP_LINK_EOF\nnohup sh /tmp/rz-udp-link-");
    reveal_strlit(".sh ");
    reveal_strlit(" >/tmp/rz-udp-link-");
    reveal_strlit(".log 2>&1 &");
    let port = text::decimal(link.guest_port as nat);
    let target = text::decimal(link.target_host_port as nat);
    assert("cat > /tmp/rz-udp-link-"@ =~= "cat > "@ + "/tmp/rz-udp-link-"@);
    assert(".sh <<'RZ_UDP_LINK_EOF'\n"@ =~= ".sh"@ + " <<'RZ_UDP_LINK_EOF'\n"@);
    assert("RZ_UDP_LINK_EOF\nnohup sh /tmp/rz-udp-link-"@ =~= "RZ_UDP_LINK_EOF\nnohup sh "@
        + "/tmp/rz-udp-link-"@);
    assert(".sh "@ =~= ".sh"@ + " "@);
    assert(" >/tmp/rz-udp-link-"@ =~= " >"@ + "/tmp/rz-udp-link-"@);
    assert(".log 2>&1 &"@ =~= ".log"@ + " 2>&1 &"@);
    assert(forwarder_install(link) =~= "cat > /tmp/rz-udp-link-"@ + port
        + ".sh <<'RZ_UDP_LINK_EOF'\n"@ + UDP_LINK_FORWARDER_SCRIPT@
        + "RZ_UDP_LINK_EOF\nnohup sh /tmp/rz-udp-link-"@ + port + ".sh "@ + port + " "@ + target
        + " >/tmp/rz-udp-link-"@ + port + ".log 2>&1 &"@);
}

/// The value of a hexadecimal digit in upper case; none where a character is no such digit.
pub open spec fn upper_digit_value(c: char) -> Option<int> {
    if '0' <= c <= '9' {
        Some(c as int - '0' as int)
    } else if 'A' <= c <= 'F' {
        Some(c as int - 'A' as int + 10)
    } else {
        None
    }
}

/// A port in hexadecimal notation has four digits, the highest first, and is the port when it is
/// read.
pub proof fn law_a_port_in_hex_is_read_back(port: u16)
    ensures
        ({
            let hex = port_hex(port);
            &&& hex.len() == 4
            &&& upper_digit_value(hex[0]) is Some && upper_digit_value(hex[1]) is Some
            &&& upper_digit_value(hex[2]) is Some && upper_digit_value(hex[3]) is Some
            &&& upper_digit_value(hex[0])->0 * 4096 + upper_digit_value(hex[1])->0 * 256
                + upper_digit_value(hex[2])->0 * 16 + upper_digit_value(hex[3])->0 == port
        }),
{
    let n = port as int;
    assert(n == n / 4096 * 4096 + n / 256 % 16 * 256 + n / 16 % 16 * 16 + n % 16);
    lemma_upper_digit(n / 4096);
    lemma_upper_digit(n / 256 % 16);
    lemma_upper_digit(n / 16 % 16);
    lemma_upper_digit(n % 16);
}

/// The character of a digit is read as the digit.
proof fn lemma_upper_digit(digit: int)
    requires
        0 <= digit < 16,
    ensures
        upper_digit_value(upper_digit_char(digit)) == Some(digit),
{
}

/// A guest is asked for exactly the port, behind a colon, in both lists of its UDP ports; and
/// the end of the log that is printed is that of the file it is asked for.
pub proof fn law_a_guest_is_asked_for_the_port(port: u16, log_path: Seq<char>)
    ensures
        text::contains_text(bound_probe(port_hex(port)), "p=':"@ + port_hex(port) + "'"@),
        text::contains_text(bound_probe(port_hex(port)), "/proc/net/udp /proc/net/udp6"@),
        log_tail(log_path) == "tail -c 2000 "@ + log_path + " 2>/dev/null"@,
{
    reveal_strlit("awk -v p=':");
    reveal_strlit("p=':");
    reveal_strlit("'");
    reveal_strlit("' 'NR>1 && substr($2, length($2)-4) == p {f=1} END {exit !f}' /proc/net/udp /proc/net/udp6");
    reveal_strlit("/proc/net/udp /proc/net/udp6");
    let hex = port_hex(port);
    let script = bound_probe(hex);
    let wanted = "p=':"@ + hex + "'"@;
    assert(script.subrange(7, 16) =~= wanted);
    assert(text::occurs_at(script, wanted, 7));
    let size = script.len() as int;
    assert(script.subrange(size - 28, size) =~= "/proc/net/udp /proc/net/udp6"@);
    assert(text::occurs_at(script, "/proc/net/udp /proc/net/udp6"@, size - 28));
}

/// The script of a forwarder takes the port of the guest and then that of the host, and for as
/// long as it runs has a listener on the first pass what it gets on to the second, at the address
/// the guest knows its host by. The probes ask for every tool that the links need.
pub proof fn law_what_the_link_scripts_ask_for()
    ensures
        NC_PROBE_SCRIPT@ == "command -v nc"@,
        text::contains_text(
            UDP_LINK_FORWARDER_SCRIPT@,
            "P=$1; HP=$2\n"@,
        ),
        text::contains_text(
            UDP_LINK_FORWARDER_SCRIPT@,
            "nc -u -l -p $P -e timeout 60 nc -u $H $HP &"@,
        ),
        text::contains_text(
            UDP_LINK_FORWARDER_SCRIPT@,
            "host.microsandbox.internal"@,
        ),
        text::contains_text(
            UDP_LINK_FORWARDER_SCRIPT@,
            "while true; do\n"@,
        ),
        text::contains_text(
            UDP_NC_PROBE_SCRIPT@,
            "command -v nc >/dev/null && "@,
        ),
        text::contains_text(
            UDP_NC_PROBE_SCRIPT@,
            "command -v timeout >/dev/null && "@,
        ),
        text::contains_text(
            UDP_NC_PROBE_SCRIPT@,
            "grep -q -- '-e PROG' && "@,
        ),
        text::contains_text(
            UDP_NC_PROBE_SCRIPT@,
            "grep -q -- '-u'"@,
        ),
{
    reveal_strlit("P=$1; HP=$2\nH=$(awk -v n=host.microsandbox.internal '$2 == n && $1 ~ /^[0-9.]+$/ { print $1; exit }' /etc/hosts)\n: ${H:=host.microsandbox.internal}\nwhile true; do\n  nc -u -l -p $P -e timeout 60 nc -u $H $HP &\n  pid=$!\n  while [ -e /proc/$pid ] && grep -q rz-udp-link /proc/$pid/cmdline 2>/dev/null; do sleep 0.01; done\n  while [ -e /proc/$pid ] && tr '\\0' ' ' < /proc/$pid/cmdline 2>/dev/null | grep -q -- ' -l '; do sleep 0.05; done\n  [ -e /proc/$pid ] || sleep 0.2\ndone\n");
    reveal_strlit("P=$1; HP=$2\n");
    assert(UDP_LINK_FORWARDER_SCRIPT@.subrange(0, 12) =~= "P=$1; HP=$2\n"@);
    assert(text::occurs_at(UDP_LINK_FORWARDER_SCRIPT@, "P=$1; HP=$2\n"@, 0));
    reveal_strlit("nc -u -l -p $P -e timeout 60 nc -u $H $HP &");
    assert(UDP_LINK_FORWARDER_SCRIPT@.subrange(165, 208) =~= "nc -u -l -p $P -e timeout 60 nc -u $H $HP &"@);
    assert(text::occurs_at(UDP_LINK_FORWARDER_SCRIPT@, "nc -u -l -p $P -e timeout 60 nc -u $H $HP &"@, 165));
    reveal_strlit("host.microsandbox.internal");
    assert(UDP_LINK_FORWARDER_SCRIPT@.subrange(25, 51) =~= "host.microsandbox.internal"@);
    assert(text::occurs_at(UDP_LINK_FORWARDER_SCRIPT@, "host.microsandbox.internal"@, 25));
    reveal_strlit("while true; do\n");
    assert(UDP_LINK_FORWARDER_SCRIPT@.subrange(148, 163) =~= "while true; do\n"@);
    assert(text::occurs_at(UDP_LINK_FORWARDER_SCRIPT@, "while true; do\n"@, 148));
    reveal_strlit("command -v nc >/dev/null && command -v timeout >/dev/null && nc --help 2>&1 | grep -q -- '-e PROG' && nc --help 2>&1 | grep -q -- '-u'");
    reveal_strlit("command -v nc >/dev/null && ");
    assert(UDP_NC_PROBE_SCRIPT@.subrange(0, 28) =~= "command -v nc >/dev/null && "@);
    assert(text::occurs_at(UDP_NC_PROBE_SCRIPT@, "command -v nc >/dev/null && "@, 0));
    reveal_strlit("command -v timeout >/dev/null && ");
    assert(UDP_NC_PROBE_SCRIPT@.subrange(28, 61) =~= "command -v timeout >/dev/null && "@);
    assert(text::occurs_at(UDP_NC_PROBE_SCRIPT@, "command -v timeout >/dev/null && "@, 28));
    reveal_strlit("grep -q -- '-e PROG' && ");
    assert(UDP_NC_PROBE_SCRIPT@.subrange(78, 102) =~= "grep -q -- '-e PROG' && "@);
    assert(text::occurs_at(UDP_NC_PROBE_SCRIPT@, "grep -q -- '-e PROG' && "@, 78));
    reveal_strlit("grep -q -- '-u'");
    assert(UDP_NC_PROBE_SCRIPT@.subrange(119, 134) =~= "grep -q -- '-u'"@);
    assert(text::occurs_at(UDP_NC_PROBE_SCRIPT@, "grep -q -- '-u'"@, 119));
}

} // verus!
