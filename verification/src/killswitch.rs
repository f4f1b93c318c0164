//! The fail-closed kill switch: the WireGuard endpoint of a profile, the
//! addresses it resolves to, and the nftables table that drops every packet
//! except loopback, the tunnel, the endpoint and DHCP renewals.
use vstd::prelude::*;

use crate::process::{Invocation, invocation_is};
use crate::text::{
    append, append_str, char_pos, chars_of, decimal, decimal_text, find, opt_view, owned,
    parse_uint, parse_unsigned, slice_of, string_of,
};

verus! {

/// The tunnel interface.
pub const IFACE: &'static str = "orion0";

/// The nftables table of the kill switch.
pub const KS_TABLE: &'static str = "inet orion_ks";

/// Start of the kill-switch ruleset: replace the table, drop all output by
/// default, allow loopback and the tunnel interface.
pub const LOCK_HEAD: &'static str = "table inet orion_ks\ndelete table inet orion_ks\ntable inet orion_ks {\n  chain output {\n    type filter hook output priority filter; policy drop;\n    oifname \"lo\" accept\n    oifname \"orion0\" accept\n";

/// End of the kill-switch ruleset: DHCP and DHCPv6 renewals.
pub const LOCK_TAIL: &'static str = "    udp sport 68 udp dport 67 accept\n    udp sport 546 udp dport 547 accept\n  }\n}\n";

/// Index of the last `c` in `s`.
pub open spec fn last_pos(s: Seq<char>, c: char) -> Option<int>
    decreases s.len(),
{
    if s.len() == 0 {
        None
    } else if s.last() == c {
        Some(s.len() - 1)
    } else {
        last_pos(s.drop_last(), c)
    }
}

/// `s` without any leading `c` (`str::trim_start_matches(c)`).
pub open spec fn strip_leading(s: Seq<char>, c: char) -> Seq<char>
    decreases s.len(),
{
    if s.len() > 0 && s[0] == c {
        strip_leading(s.drop_first(), c)
    } else {
        s
    }
}

/// Host and port text of an endpoint: `[v6]:port` or `host:port` (split at
/// the last colon).
pub open spec fn endpoint_parts(s: Seq<char>) -> Result<(Seq<char>, Seq<char>), Seq<char>> {
    if s.len() > 0 && s[0] == '[' {
        let rest = s.drop_first();
        let close = char_pos(rest, ']');
        if close < rest.len() {
            Ok((rest.take(close as int), strip_leading(rest.skip((close + 1) as int), ':')))
        } else {
            Err("malformed IPv6 endpoint"@)
        }
    } else {
        match last_pos(s, ':') {
            Some(i) => Ok((s.take(i), s.skip(i + 1))),
            None => Err("endpoint must be host:port"@),
        }
    }
}

/// Host and port of an endpoint, or the reason it is not one.
pub open spec fn endpoint_of(s: Seq<char>) -> Result<(Seq<char>, int), Seq<char>> {
    match endpoint_parts(s) {
        Err(e) => Err(e),
        Ok((host, port)) => match parse_unsigned(port, 65535) {
            Some(p) => Ok((host, p)),
            None => Err("bad endpoint port"@),
        },
    }
}

fn bracketed_parts(v: &Vec<char>) -> (r: Result<(Vec<char>, Vec<char>), String>)
    requires
        v.len() > 0,
        v@[0] == '[',
    ensures
        match r {
            Ok((h, p)) => endpoint_parts(v@) == Ok::<(Seq<char>, Seq<char>), Seq<char>>((h@, p@)),
            Err(e) => endpoint_parts(v@) == Err::<(Seq<char>, Seq<char>), Seq<char>>(e@),
        },
{
    let n = v.len();
    let close = find(v, ']', 1);
    let ghost rest = v@.drop_first();
    assert(v@.skip(1) =~= rest);
    if close == n {
        return Err(owned("malformed IPv6 endpoint"));
    }
    let host = slice_of(v, 1, close);
    assert(host@ =~= rest.take(close - 1));
    let mut j = close + 1;
    assert(v@.skip(j as int) =~= rest.skip(close - 1 + 1));
    while j < n && v[j] == ':'
        invariant
            close + 1 <= j <= n,
            n == v.len(),
            rest == v@.drop_first(),
            strip_leading(rest.skip(close - 1 + 1), ':') == strip_leading(v@.skip(j as int), ':'),
        decreases n - j,
    {
        assert(v@.skip(j as int).drop_first() =~= v@.skip(j + 1));
        j += 1;
    }
    let port = slice_of(v, j, n);
    assert(port@ =~= v@.skip(j as int));
    assert(strip_leading(v@.skip(j as int), ':') == v@.skip(j as int)) by {
        if j < n {
            assert(v@.skip(j as int)[0] == v@[j as int]);
        }
    }
    Ok((host, port))
}

fn colon_parts(v: &Vec<char>) -> (r: Result<(Vec<char>, Vec<char>), String>)
    requires
        !(v.len() > 0 && v@[0] == '['),
    ensures
        match r {
            Ok((h, p)) => endpoint_parts(v@) == Ok::<(Seq<char>, Seq<char>), Seq<char>>((h@, p@)),
            Err(e) => endpoint_parts(v@) == Err::<(Seq<char>, Seq<char>), Seq<char>>(e@),
        },
{
    let n = v.len();
    let mut i = n;
    assert(v@.take(n as int) =~= v@);
    while i > 0 && v[i - 1] != ':'
        invariant
            i <= n,
            n == v.len(),
            last_pos(v@, ':') == last_pos(v@.take(i as int), ':'),
        decreases i,
    {
        assert(v@.take(i as int).drop_last() =~= v@.take(i - 1));
        i -= 1;
    }
    if i == 0 {
        return Err(owned("endpoint must be host:port"));
    }
    assert(last_pos(v@.take(i as int), ':') == Some(i - 1));
    let host = slice_of(v, 0, i - 1);
    let port = slice_of(v, i, n);
    assert(port@ =~= v@.skip(i as int));
    assert(host@ =~= v@.take(i - 1));
    Ok((host, port))
}

/// Splits an endpoint into host and port.
pub fn split_endpoint(spec: &str) -> (r: Result<(String, u16), String>)
    ensures
        match r {
            Ok((h, p)) => endpoint_of(spec@) == Ok::<(Seq<char>, int), Seq<char>>((h@, p as int)),
            Err(e) => endpoint_of(spec@) == Err::<(Seq<char>, int), Seq<char>>(e@),
        },
{
    let v = chars_of(spec);
    let parts = if v.len() > 0 && v[0] == '[' {
        bracketed_parts(&v)
    } else {
        colon_parts(&v)
    };
    match parts {
        Err(e) => Err(e),
        Ok((host, port)) => match parse_uint(&port, 65535) {
            Some(p) => Ok((string_of(&host), p as u16)),
            None => Err(owned("bad endpoint port")),
        },
    }
}

/// One address a host name resolved to, as text.
pub enum Address {
    V4(String),
    V6(String),
}

/// The first IPv4 address of a resolution.
pub open spec fn first_v4(a: Seq<Address>) -> Option<Seq<char>>
    decreases a.len(),
{
    if a.len() == 0 {
        None
    } else {
        match a[0] {
            Address::V4(s) => Some(s@),
            Address::V6(_) => first_v4(a.drop_first()),
        }
    }
}

/// The first IPv6 address of a resolution.
pub open spec fn first_v6(a: Seq<Address>) -> Option<Seq<char>>
    decreases a.len(),
{
    if a.len() == 0 {
        None
    } else {
        match a[0] {
            Address::V6(s) => Some(s@),
            Address::V4(_) => first_v6(a.drop_first()),
        }
    }
}

/// The endpoint the kill switch lets through: at most one address of each
/// family, and the port.
pub struct Resolved {
    pub v4: Option<String>,
    pub v6: Option<String>,
    pub port: u16,
}

/// The message for a host that cannot be resolved.
pub fn resolve_failure(host: &str, detail: &str) -> (s: String)
    ensures
        s@ == "cannot resolve "@ + host@ + ": "@ + detail@,
{
    let mut out = chars_of("cannot resolve ");
    append_str(&mut out, host);
    append_str(&mut out, ": ");
    append_str(&mut out, detail);
    string_of(&out)
}

/// Keeps the first IPv4 and the first IPv6 address of a resolution; a
/// resolution with neither is an error.
pub fn pick_addresses(host: &str, port: u16, addrs: &Vec<Address>) -> (r: Result<Resolved, String>)
    ensures
        match r {
            Ok(ep) => {
                &&& opt_view(ep.v4) == first_v4(addrs@)
                &&& opt_view(ep.v6) == first_v6(addrs@)
                &&& ep.port == port
                &&& (ep.v4 is Some || ep.v6 is Some)
            },
            Err(e) => {
                &&& first_v4(addrs@) is None
                &&& first_v6(addrs@) is None
                &&& e@ == "no addresses for "@ + host@
            },
        },
{
    let mut v4: Option<String> = None;
    let mut v6: Option<String> = None;
    let n = addrs.len();
    let mut i: usize = 0;
    assert(addrs@.skip(0) =~= addrs@);
    while i < n
        invariant
            n == addrs.len(),
            i <= n,
            v4 is None ==> first_v4(addrs@) == first_v4(addrs@.skip(i as int)),
            v4 is Some ==> opt_view(v4) == first_v4(addrs@),
            v6 is None ==> first_v6(addrs@) == first_v6(addrs@.skip(i as int)),
            v6 is Some ==> opt_view(v6) == first_v6(addrs@),
        decreases n - i,
    {
        assert(addrs@.skip(i as int)[0] == addrs@[i as int]);
        assert(addrs@.skip(i as int).drop_first() =~= addrs@.skip(i + 1));
        match &addrs[i] {
            Address::V4(s) => {
                if v4.is_none() {
                    v4 = Some(s.clone());
                }
            },
            Address::V6(s) => {
                if v6.is_none() {
                    v6 = Some(s.clone());
                }
            },
        }
        i += 1;
    }
    if v4.is_none() && v6.is_none() {
        let mut out = chars_of("no addresses for ");
        append_str(&mut out, host);
        return Err(string_of(&out));
    }
    Ok(Resolved { v4, v6, port })
}

/// The allow rule for one endpoint address.
pub open spec fn endpoint_rule(family: Seq<char>, addr: Seq<char>, port: nat) -> Seq<char> {
    "    meta nfproto "@ + family + " daddr "@ + addr + " udp dport "@ + decimal(port) + " accept\n"@
}

/// The kill-switch ruleset for an endpoint.
pub open spec fn lock_script(v4: Option<Seq<char>>, v6: Option<Seq<char>>, port: nat) -> Seq<char> {
    LOCK_HEAD@ + match v4 {
        Some(a) => endpoint_rule("ipv4 ip"@, a, port),
        None => seq![],
    } + match v6 {
        Some(a) => endpoint_rule("ipv6 ip6"@, a, port),
        None => seq![],
    } + LOCK_TAIL@
}

/// `rule` stands in `script` somewhere after the allow rules for the
/// loopback and tunnel interfaces and before the DHCP rules.
pub open spec fn holds_rule(script: Seq<char>, rule: Seq<char>) -> bool {
    exists|i: int|
        LOCK_HEAD@.len() <= i && i + rule.len() <= script.len() - LOCK_TAIL@.len() && #[trigger] script.subrange(
            i,
            i + rule.len(),
        ) == rule
}

/// Every resolved endpoint address is let through: the ruleset holds the
/// allow rule for the IPv4 address when one was found, and the allow rule for
/// the IPv6 address when one was found, each whether or not the other family
/// was found.
pub proof fn lemma_lock_allows_endpoint(v4: Option<Seq<char>>, v6: Option<Seq<char>>, port: nat)
    ensures
        v4 matches Some(a) ==> holds_rule(
            lock_script(v4, v6, port),
            "    meta nfproto ipv4 ip daddr "@ + a + " udp dport "@ + decimal(port) + " accept\n"@,
        ),
        v6 matches Some(a) ==> holds_rule(
            lock_script(v4, v6, port),
            "    meta nfproto ipv6 ip6 daddr "@ + a + " udp dport "@ + decimal(port) + " accept\n"@,
        ),
{
    reveal_strlit("    meta nfproto ");
    reveal_strlit(" daddr ");
    reveal_strlit("ipv4 ip");
    reveal_strlit("ipv6 ip6");
    reveal_strlit("    meta nfproto ipv4 ip daddr ");
    reveal_strlit("    meta nfproto ipv6 ip6 daddr ");
    let h = LOCK_HEAD@;
    let t = LOCK_TAIL@;
    let r4 = if let Some(a4) = v4 {
        endpoint_rule("ipv4 ip"@, a4, port)
    } else {
        seq![]
    };
    let r6 = if let Some(a6) = v6 {
        endpoint_rule("ipv6 ip6"@, a6, port)
    } else {
        seq![]
    };
    let s = lock_script(v4, v6, port);
    assert(s == h + r4 + r6 + t);
    if let Some(a) = v4 {
        let rule = "    meta nfproto ipv4 ip daddr "@ + a + " udp dport "@ + decimal(port) + " accept\n"@;
        assert(("    meta nfproto "@ + "ipv4 ip"@ + " daddr "@) =~= "    meta nfproto ipv4 ip daddr "@);
        assert(r4 =~= rule);
        let i = h.len() as int;
        assert(s.subrange(i, i + rule.len()) =~= rule);
    }
    if let Some(a) = v6 {
        let rule = "    meta nfproto ipv6 ip6 daddr "@ + a + " udp dport "@ + decimal(port) + " accept\n"@;
        assert(("    meta nfproto "@ + "ipv6 ip6"@ + " daddr "@) =~= "    meta nfproto ipv6 ip6 daddr "@);
        assert(r6 =~= rule);
        let i = (h.len() + r4.len()) as int;
        assert(s.subrange(i, i + rule.len()) =~= rule);
    }
}

fn push_rule(out: &mut Vec<char>, family: &str, addr: &String, port: u16)
    ensures
        final(out)@ == old(out)@ + endpoint_rule(family@, addr@, port as nat),
{
    append_str(out, "    meta nfproto ");
    append_str(out, family);
    append_str(out, " daddr ");
    append_str(out, addr.as_str());
    append_str(out, " udp dport ");
    append(out, &decimal_text(port as u64));
    append_str(out, " accept\n");
}

/// The command that installs the kill switch for `ep`: the ruleset fed to
/// `nft -f -`.
pub fn apply_lock(ep: &Resolved) -> (r: Invocation)
    ensures
        invocation_is(
            r,
            "nft"@,
            seq!["-f"@, "-"@],
            Some(lock_script(opt_view(ep.v4), opt_view(ep.v6), ep.port as nat)),
        ),
{
    let mut script = chars_of(LOCK_HEAD);
    let ghost head = script@;
    match &ep.v4 {
        Some(a) => push_rule(&mut script, "ipv4 ip", a, ep.port),
        None => {},
    }
    let ghost mid = script@;
    match &ep.v6 {
        Some(a) => push_rule(&mut script, "ipv6 ip6", a, ep.port),
        None => {},
    }
    append_str(&mut script, LOCK_TAIL);
    let mut args: Vec<String> = Vec::new();
    args.push(owned("-f"));
    args.push(owned("-"));
    assert(crate::text::string_views(args@) =~= seq!["-f"@, "-"@]);
    let r = Invocation { program: owned("nft"), args, input: Some(string_of(&script)) };
    assert(script@ =~= lock_script(opt_view(ep.v4), opt_view(ep.v6), ep.port as nat));
    r
}

/// The command that tells whether the kill-switch table exists.
pub fn lock_probe() -> (r: Invocation)
    ensures
        invocation_is(r, "nft"@, seq!["list"@, "table"@, KS_TABLE@], None),
{
    let mut args: Vec<String> = Vec::new();
    args.push(owned("list"));
    args.push(owned("table"));
    args.push(owned(KS_TABLE));
    assert(crate::text::string_views(args@) =~= seq!["list"@, "table"@, KS_TABLE@]);
    Invocation { program: owned("nft"), args, input: None }
}

/// What removing the kill switch runs once the probe has answered: the
/// table is deleted only when it exists.
pub fn remove_lock(table_present: bool) -> (r: Option<Invocation>)
    ensures
        table_present ==> (r matches Some(inv) && invocation_is(
            inv,
            "nft"@,
            seq!["delete"@, "table"@, KS_TABLE@],
            None,
        )),
        !table_present ==> r is None,
{
    if !table_present {
        return None;
    }
    let mut args: Vec<String> = Vec::new();
    args.push(owned("delete"));
    args.push(owned("table"));
    args.push(owned(KS_TABLE));
    assert(crate::text::string_views(args@) =~= seq!["delete"@, "table"@, KS_TABLE@]);
    Some(Invocation { program: owned("nft"), args, input: None })
}

} // verus!
