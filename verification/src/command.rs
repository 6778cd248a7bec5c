//! The external commands a job's network needs, as plain argument lists: the
//! namespace and interface steps and the firewall rules, each in the order
//! in which it has to be issued.

use crate::address::{dotted, Address, AddressPair};
use crate::ports::PortMapping;
use crate::text::{decimal, decimal_string};
use vstd::prelude::*;
use vstd::string::*;

verus! {

/// The external program an invocation is meant for.
#[derive(Clone, Copy, Debug, PartialEq, Eq, Structural)]
pub enum Tool {
    /// The namespace, interface and routing tool.
    Ip,
    /// The firewall rule tool.
    Firewall,
    /// The tool that lists the host's listening sockets.
    Inventory,
    /// The workload runtime.
    Runtime,
}

/// One run of an external program with its arguments.
#[derive(Debug)]
pub struct Invocation {
    pub tool: Tool,
    pub args: Vec<String>,
}

/// The mathematical form of an invocation.
pub struct InvocationView {
    pub tool: Tool,
    pub args: Seq<Seq<char>>,
}

impl View for Invocation {
    type V = InvocationView;

    open spec fn view(&self) -> InvocationView {
        InvocationView { tool: self.tool, args: self.args.deep_view() }
    }
}

/// The mathematical form of a list of invocations.
pub open spec fn plan_view(plan: Seq<Invocation>) -> Seq<InvocationView> {
    Seq::new(plan.len(), |i: int| plan[i]@)
}

/// Name of the host end of a job's virtual link.
pub open spec fn host_iface(id: Seq<char>) -> Seq<char> {
    id + "-host"@
}

/// Name of the guest end of a job's virtual link.
pub open spec fn guest_iface(id: Seq<char>) -> Seq<char> {
    id + "-guest"@
}

/// Whether both interface names of job `id` fit the fifteen bytes the kernel
/// allows an interface name: the longer suffix takes six of them.
pub open spec fn names_fit(id: &str) -> bool {
    id.spec_bytes().len() + 6 <= 15
}

/// An invocation of the namespace tool.
pub open spec fn ip_call(args: Seq<Seq<char>>) -> InvocationView {
    InvocationView { tool: Tool::Ip, args }
}

/// An invocation of the firewall tool.
pub open spec fn firewall_call(args: Seq<Seq<char>>) -> InvocationView {
    InvocationView { tool: Tool::Firewall, args }
}

/// The steps that give job `id` a namespace of its own, linked to the host by
/// the address pair: the namespace, the interface pair, the guest end moved
/// into the namespace, the host end addressed and raised, and, inside the
/// namespace, loopback raised, the guest end addressed and raised, and the
/// default route through the host end.
pub open spec fn provision_plan(ip: Seq<char>, id: Seq<char>, pair: AddressPair) -> Seq<
    InvocationView,
> {
    let host = host_iface(id);
    let guest = guest_iface(id);
    seq![
        ip_call(seq!["netns"@, "add"@, id]),
        ip_call(seq!["link"@, "add"@, host, "type"@, "veth"@, "peer"@, "name"@, guest]),
        ip_call(seq!["link"@, "set"@, guest, "netns"@, id]),
        ip_call(seq!["addr"@, "add"@, dotted(pair.host) + "/24"@, "dev"@, host]),
        ip_call(seq!["link"@, "set"@, "dev"@, host, "up"@]),
        ip_call(seq!["netns"@, id, ip, "link"@, "set"@, "dev"@, "lo"@, "up"@]),
        ip_call(seq!["netns"@, id, ip, "addr"@, "add"@, dotted(pair.guest), "dev"@, guest]),
        ip_call(seq!["netns"@, id, ip, "link"@, "set"@, guest, "up"@]),
        ip_call(seq!["netns"@, id, ip, "route"@, "add"@, "default"@, "via"@, dotted(pair.host)]),
    ]
}

/// Whether both interface names of job `id` fit the kernel's limit. Nothing
/// in a spawn refuses an identifier that is too long; the commands that name
/// the interfaces then fail when they are run.
pub fn interface_names_fit(id: &str) -> (b: bool)
    ensures
        b == names_fit(id),
{
    id.as_bytes().len() <= 9
}

fn word(s: &str) -> (r: String)
    ensures
        r@ == s@,
{
    String::from_str(s)
}

fn joined(a: &str, b: &str) -> (r: String)
    ensures
        r@ == a@ + b@,
{
    let mut r = String::from_str(a);
    r.append(b);
    r
}

fn ip_step(args: Vec<String>) -> (r: Invocation)
    ensures
        r@ == ip_call(args.deep_view()),
{
    Invocation { tool: Tool::Ip, args }
}

/// The rules that hide namespace traffic behind the host when it leaves by
/// the outward device.
pub open spec fn masquerade_rules(net_device: Seq<char>) -> Seq<InvocationView> {
    seq![
        firewall_call(
            seq![
                "-t"@,
                "nat"@,
                "-A"@,
                "POSTROUTING"@,
                "-s"@,
                "127.0.0.1"@,
                "-j"@,
                "MASQUERADE"@,
            ],
        ),
        firewall_call(
            seq![
                "-t"@,
                "nat"@,
                "-A"@,
                "POSTROUTING"@,
                "!"@,
                "-s"@,
                "127.0.0.1"@,
                "-o"@,
                net_device,
                "-j"@,
                "MASQUERADE"@,
            ],
        ),
    ]
}

/// The rule that lets traffic pass from interface `from` to interface `to`.
pub open spec fn forward_rule(from: Seq<char>, to: Seq<char>) -> InvocationView {
    firewall_call(
        seq!["-t"@, "nat"@, "-A"@, "FORWARD"@, "-i"@, from, "-o"@, to, "-j"@, "ACCEPT"@],
    )
}

/// The rule that redirects TCP arriving at the mapping's host port on the
/// host end of the link to the mapping's logical port at the guest address.
pub open spec fn dnat_rule(id: Seq<char>, guest: Address, m: PortMapping) -> InvocationView {
    firewall_call(
        seq![
            "-t"@,
            "nat"@,
            "-A"@,
            "PREROUTING"@,
            "-p"@,
            "tcp"@,
            "-i"@,
            host_iface(id),
            "--dport"@,
            decimal(m.host as nat),
            "-j"@,
            "DNAT"@,
            "--to-destination"@,
            dotted(guest) + ":"@ + decimal(m.logical as nat),
        ],
    )
}

/// The rule that accepts forwarded TCP for the mapping's logical port at the
/// guest address, for new, established and related connections.
pub open spec fn accept_rule(guest: Address, m: PortMapping) -> InvocationView {
    firewall_call(
        seq![
            "-A"@,
            "FORWARD"@,
            "-p"@,
            "tcp"@,
            "-d"@,
            dotted(guest),
            "--dport"@,
            decimal(m.logical as nat),
            "-m"@,
            "state"@,
            "--state"@,
            "NEW,ESTABLISHED,RELATED"@,
            "-j"@,
            "ACCEPT"@,
        ],
    )
}

/// Two rules per mapped port, in mapping order: the redirect, then the
/// matching accept.
pub open spec fn port_rules(id: Seq<char>, guest: Address, mapped: Seq<PortMapping>) -> Seq<
    InvocationView,
> {
    Seq::new(
        2 * mapped.len(),
        |i: int|
            if i % 2 == 0 {
                dnat_rule(id, guest, mapped[i / 2])
            } else {
                accept_rule(guest, mapped[i / 2])
            },
    )
}

/// The whole rule set of a job: masquerading first, then forwarding between
/// the two ends of the link in both directions, then the rules of each
/// mapped port.
pub open spec fn nat_plan(
    id: Seq<char>,
    net_device: Seq<char>,
    pair: AddressPair,
    mapped: Seq<PortMapping>,
) -> Seq<InvocationView> {
    masquerade_rules(net_device) + seq![
        forward_rule(guest_iface(id), host_iface(id)),
        forward_rule(host_iface(id), guest_iface(id)),
    ] + port_rules(id, pair.guest, mapped)
}

/// The namespace and interface steps for job `id`, in the order in which
/// they are to be run. `ip_command` is the path of the namespace tool, which
/// the steps inside the namespace name again as an argument.
pub fn provision_commands(ip_command: &str, id: &str, pair: &AddressPair) -> (plan: Vec<Invocation>)
    ensures
        plan_view(plan@) == provision_plan(ip_command@, id@, *pair),
{
    let host = joined(id, "-host");
    let guest = joined(id, "-guest");
    let host_ip = pair.host.to_text();
    let guest_ip = pair.guest.to_text();
    let host_net = joined(host_ip.as_str(), "/24");
    let mut plan: Vec<Invocation> = Vec::new();
    let a0 = vec![word("netns"), word("add"), word(id)];
    assert(a0.deep_view() =~~= seq!["netns"@, "add"@, id@]);
    plan.push(ip_step(a0));
    let a1 = vec![
        word("link"),
        word("add"),
        host.clone(),
        word("type"),
        word("veth"),
        word("peer"),
        word("name"),
        guest.clone(),
    ];
    assert(a1.deep_view() =~~= seq![
        "link"@,
        "add"@,
        host@,
        "type"@,
        "veth"@,
        "peer"@,
        "name"@,
        guest@,
    ]);
    plan.push(ip_step(a1));
    let a2 = vec![word("link"), word("set"), guest.clone(), word("netns"), word(id)];
    assert(a2.deep_view() =~~= seq!["link"@, "set"@, guest@, "netns"@, id@]);
    plan.push(ip_step(a2));
    let a3 = vec![word("addr"), word("add"), host_net, word("dev"), host.clone()];
    assert(a3.deep_view() =~~= seq!["addr"@, "add"@, dotted(pair.host) + "/24"@, "dev"@, host@]);
    plan.push(ip_step(a3));
    let a4 = vec![word("link"), word("set"), word("dev"), host.clone(), word("up")];
    assert(a4.deep_view() =~~= seq!["link"@, "set"@, "dev"@, host@, "up"@]);
    plan.push(ip_step(a4));
    let a5 = vec![
        word("netns"),
        word(id),
        word(ip_command),
        word("link"),
        word("set"),
        word("dev"),
        word("lo"),
        word("up"),
    ];
    assert(a5.deep_view() =~~= seq![
        "netns"@,
        id@,
        ip_command@,
        "link"@,
        "set"@,
        "dev"@,
        "lo"@,
        "up"@,
    ]);
    plan.push(ip_step(a5));
    let a6 = vec![
        word("netns"),
        word(id),
        word(ip_command),
        word("addr"),
        word("add"),
        guest_ip,
        word("dev"),
        guest.clone(),
    ];
    assert(a6.deep_view() =~~= seq![
        "netns"@,
        id@,
        ip_command@,
        "addr"@,
        "add"@,
        dotted(pair.guest),
        "dev"@,
        guest@,
    ]);
    plan.push(ip_step(a6));
    let a7 = vec![
        word("netns"),
        word(id),
        word(ip_command),
        word("link"),
        word("set"),
        guest,
        word("up"),
    ];
    assert(a7.deep_view() =~~= seq!["netns"@, id@, ip_command@, "link"@, "set"@, guest@, "up"@]);
    plan.push(ip_step(a7));
    let a8 = vec![
        word("netns"),
        word(id),
        word(ip_command),
        word("route"),
        word("add"),
        word("default"),
        word("via"),
        host_ip,
    ];
    assert(a8.deep_view() =~~= seq![
        "netns"@,
        id@,
        ip_command@,
        "route"@,
        "add"@,
        "default"@,
        "via"@,
        dotted(pair.host),
    ]);
    plan.push(ip_step(a8));
    assert(plan_view(plan@) =~= provision_plan(ip_command@, id@, *pair));
    plan
}

fn firewall_step(args: Vec<String>) -> (r: Invocation)
    ensures
        r@ == firewall_call(args.deep_view()),
{
    Invocation { tool: Tool::Firewall, args }
}

fn forward_step(from: &String, to: &String) -> (r: Invocation)
    ensures
        r@ == forward_rule(from@, to@),
{
    let args = vec![
        word("-t"),
        word("nat"),
        word("-A"),
        word("FORWARD"),
        word("-i"),
        from.clone(),
        word("-o"),
        to.clone(),
        word("-j"),
        word("ACCEPT"),
    ];
    assert(args.deep_view() =~~= seq![
        "-t"@,
        "nat"@,
        "-A"@,
        "FORWARD"@,
        "-i"@,
        from@,
        "-o"@,
        to@,
        "-j"@,
        "ACCEPT"@,
    ]);
    firewall_step(args)
}

fn dnat_step(id: &str, guest: &Address, m: &PortMapping) -> (r: Invocation)
    ensures
        r@ == dnat_rule(id@, *guest, *m),
{
    let mut target = guest.to_text();
    target.append(":");
    target.append(decimal_string(m.logical).as_str());
    let args = vec![
        word("-t"),
        word("nat"),
        word("-A"),
        word("PREROUTING"),
        word("-p"),
        word("tcp"),
        word("-i"),
        joined(id, "-host"),
        word("--dport"),
        decimal_string(m.host),
        word("-j"),
        word("DNAT"),
        word("--to-destination"),
        target,
    ];
    assert(args.deep_view() =~~= seq![
        "-t"@,
        "nat"@,
        "-A"@,
        "PREROUTING"@,
        "-p"@,
        "tcp"@,
        "-i"@,
        host_iface(id@),
        "--dport"@,
        decimal(m.host as nat),
        "-j"@,
        "DNAT"@,
        "--to-destination"@,
        dotted(*guest) + ":"@ + decimal(m.logical as nat),
    ]);
    firewall_step(args)
}

fn accept_step(guest: &Address, m: &PortMapping) -> (r: Invocation)
    ensures
        r@ == accept_rule(*guest, *m),
{
    let args = vec![
        word("-A"),
        word("FORWARD"),
        word("-p"),
        word("tcp"),
        word("-d"),
        guest.to_text(),
        word("--dport"),
        decimal_string(m.logical),
        word("-m"),
        word("state"),
        word("--state"),
        word("NEW,ESTABLISHED,RELATED"),
        word("-j"),
        word("ACCEPT"),
    ];
    assert(args.deep_view() =~~= seq![
        "-A"@,
        "FORWARD"@,
        "-p"@,
        "tcp"@,
        "-d"@,
        dotted(*guest),
        "--dport"@,
        decimal(m.logical as nat),
        "-m"@,
        "state"@,
        "--state"@,
        "NEW,ESTABLISHED,RELATED"@,
        "-j"@,
        "ACCEPT"@,
    ]);
    firewall_step(args)
}

/// The firewall rules of job `id`, in the order in which they are to be
/// installed: masquerading, forwarding between the two ends of the link, then
/// a redirect and an accept rule for each mapped port.
pub fn nat_commands(id: &str, net_device: &str, pair: &AddressPair, mapped: &Vec<PortMapping>) -> (plan:
    Vec<Invocation>)
    ensures
        plan_view(plan@) == nat_plan(id@, net_device@, *pair, mapped@),
{
    let host = joined(id, "-host");
    let guest = joined(id, "-guest");
    let mut plan: Vec<Invocation> = Vec::new();
    let m0 = vec![
        word("-t"),
        word("nat"),
        word("-A"),
        word("POSTROUTING"),
        word("-s"),
        word("127.0.0.1"),
        word("-j"),
        word("MASQUERADE"),
    ];
    assert(m0.deep_view() =~~= seq![
        "-t"@,
        "nat"@,
        "-A"@,
        "POSTROUTING"@,
        "-s"@,
        "127.0.0.1"@,
        "-j"@,
        "MASQUERADE"@,
    ]);
    plan.push(firewall_step(m0));
    let m1 = vec![
        word("-t"),
        word("nat"),
        word("-A"),
        word("POSTROUTING"),
        word("!"),
        word("-s"),
        word("127.0.0.1"),
        word("-o"),
        word(net_device),
        word("-j"),
        word("MASQUERADE"),
    ];
    assert(m1.deep_view() =~~= seq![
        "-t"@,
        "nat"@,
        "-A"@,
        "POSTROUTING"@,
        "!"@,
        "-s"@,
        "127.0.0.1"@,
        "-o"@,
        net_device@,
        "-j"@,
        "MASQUERADE"@,
    ]);
    plan.push(firewall_step(m1));
    plan.push(forward_step(&guest, &host));
    plan.push(forward_step(&host, &guest));
    let ghost fixed = plan_view(plan@);
    assert(fixed =~= masquerade_rules(net_device@) + seq![
        forward_rule(guest_iface(id@), host_iface(id@)),
        forward_rule(host_iface(id@), guest_iface(id@)),
    ]);
    let mut j: usize = 0;
    while j < mapped.len()
        invariant
            j <= mapped.len(),
            fixed.len() == 4,
            plan_view(plan@) == fixed + port_rules(id@, pair.guest, mapped@.take(j as int)),
        decreases mapped.len() - j,
    {
        let ghost before = plan_view(plan@);
        assert(mapped@.take(j as int).len() == j);
        assert(before.len() == 4 + 2 * j);
        let m = mapped[j];
        plan.push(dnat_step(id, &pair.guest, &m));
        plan.push(accept_step(&pair.guest, &m));
        j += 1;
        assert(plan_view(plan@) =~= fixed + port_rules(id@, pair.guest, mapped@.take(j as int))) by {
            let now = plan_view(plan@);
            let want = fixed + port_rules(id@, pair.guest, mapped@.take(j as int));
            assert(mapped@.take(j as int).len() == j);
            assert(now.len() == before.len() + 2);
            assert(now.len() == want.len());
            assert forall|k: int| 0 <= k < now.len() implies now[k] == want[k] by {
                if k < before.len() {
                    assert(now[k] == before[k]);
                    if k >= 4 {
                        assert((k - 4) / 2 < j - 1);
                        assert(before[k] == port_rules(
                            id@,
                            pair.guest,
                            mapped@.take(j - 1),
                        )[k - 4]);
                    }
                }
            }
        }
    }
    assert(mapped@.take(j as int) =~= mapped@);
    plan
}

} // verus!
