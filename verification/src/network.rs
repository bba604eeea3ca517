//! Peer connections and the local network check: who may be connected,
//! which addresses are tried, and the report that explains connectivity.
use vstd::prelude::*;
use crate::pairing::PublicIdentity;
use crate::text::{
    ascii_lower_seq, chars_ascii_lower, chars_contains, chars_of, decimal, has_infix, push_chars, push_str,
    str_eq, str_views, u64_to_decimal,
};

verus! {

/// A device's identity as shown to the user.
#[derive(Debug, Clone)]
pub struct IdentityInfo {
    pub device_id: String,
    pub display_name: String,
}

/// Refuses a connection to this device itself.
pub fn ensure_not_local_device(local_device_id: &str, peer_device_id: &str) -> (r: Result<(), String>)
    ensures
        r is Err <==> (peer_device_id@.len() > 0 && peer_device_id@ == local_device_id@),
        r matches Err(e) ==> e@ == "不能连接本机"@,
{
    if peer_device_id.unicode_len() > 0 && str_eq(peer_device_id, local_device_id) {
        return Err(crate::text::to_owned_string("不能连接本机"));
    }
    Ok(())
}

/// The identity named by a connect request, when both parts are given and non-empty.
pub fn peer_identity_from_args(device_id: Option<String>, public_key: Option<Vec<u8>>) -> (r: Option<PublicIdentity>)
    ensures
        match r {
            Some(p) => device_id == Some(p.device_id) && public_key == Some(p.public_key) && p.device_id@.len() > 0
                && p.public_key@.len() > 0,
            None => !(device_id matches Some(d) && d@.len() > 0) || !(public_key matches Some(k) && k@.len() > 0),
        },
{
    match (device_id, public_key) {
        (Some(d), Some(k)) => {
            if d.unicode_len() > 0 && k.len() > 0 {
                Some(PublicIdentity { device_id: d, public_key: k })
            } else {
                None
            }
        },
        _ => None,
    }
}

/// The addresses tried for a peer, in order: the requested one, then each
/// advertised one not yet listed.
pub open spec fn candidate_addresses(
    requested: (Seq<char>, u16),
    advertised: Seq<(Seq<char>, u16)>,
) -> Seq<(Seq<char>, u16)>
    decreases advertised.len(),
{
    if advertised.len() == 0 {
        seq![requested]
    } else {
        let prev = candidate_addresses(requested, advertised.drop_last());
        if prev.contains(advertised.last()) {
            prev
        } else {
            prev.push(advertised.last())
        }
    }
}

/// Address and port pairs as plain values.
pub open spec fn addr_view(v: Seq<(String, u16)>) -> Seq<(Seq<char>, u16)> {
    v.map_values(|a: (String, u16)| (a.0@, a.1))
}

/// The addresses to try for a peer, without repeats.
pub fn connection_candidates(requested_address: &str, requested_port: u16, advertised: &[(String, u16)]) -> (r: Vec<(String, u16)>)
    ensures
        addr_view(r@) == candidate_addresses((requested_address@, requested_port), addr_view(advertised@)),
{
    let mut out: Vec<(String, u16)> = Vec::new();
    out.push((crate::text::to_owned_string(requested_address), requested_port));
    let ghost adv = addr_view(advertised@);
    let mut i: usize = 0;
    assert(adv.take(0) =~= Seq::<(Seq<char>, u16)>::empty());
    assert(addr_view(out@) =~= seq![(requested_address@, requested_port)]);
    while i < advertised.len()
        invariant
            i <= advertised@.len(),
            adv == addr_view(advertised@),
            addr_view(out@) == candidate_addresses((requested_address@, requested_port), adv.take(i as int)),
        decreases advertised.len() - i,
    {
        assert(adv.take(i + 1).drop_last() =~= adv.take(i as int));
        assert(adv.take(i + 1).last() == adv[i as int]);
        let ghost prev = addr_view(out@);
        let mut found = false;
        let mut k: usize = 0;
        while k < out.len()
            invariant
                k <= out@.len(),
                prev == addr_view(out@),
                adv == addr_view(advertised@),
                i < advertised@.len(),
                found == exists|j: int| 0 <= j < k && prev[j] == adv[i as int],
            decreases out.len() - k,
        {
            if out[k].1 == advertised[i].1 && str_eq(out[k].0.as_str(), advertised[i].0.as_str()) {
                assert(prev[k as int] == adv[i as int]);
                found = true;
            }
            k = k + 1;
        }
        if !found {
            out.push((advertised[i].0.clone(), advertised[i].1));
            assert(addr_view(out@) =~= prev.push(adv[i as int]));
        } else {
            proof {
                let j = choose|j: int| 0 <= j < prev.len() && prev[j] == adv[i as int];
                assert(prev.contains(adv[i as int]));
            }
        }
        i = i + 1;
    }
    assert(adv.take(advertised@.len() as int) =~= adv);
    out
}

/// Name fragments of VPN and virtual adapters.
pub open spec fn virtual_adapter_marks() -> Seq<Seq<char>> {
    seq!["vpn"@, "tun"@, "tap"@, "utun"@, "virtual"@, "hyper-v"@, "vmware"@, "wsl"@]
}

/// The adapter looks like a VPN or virtual one (by its lower-cased name).
pub open spec fn virtual_or_vpn(name: Seq<char>) -> bool {
    exists|k: int| 0 <= k < 8 && has_infix(ascii_lower_seq(name), #[trigger] virtual_adapter_marks()[k])
}

/// Whether a network adapter's name suggests a VPN or virtual adapter.
pub fn looks_like_virtual_or_vpn(name: &str) -> (r: bool)
    ensures
        r == virtual_or_vpn(name@),
{
    let lower = chars_ascii_lower(&chars_of(name));
    let mut marks: Vec<&'static str> = Vec::new();
    marks.push("vpn");
    marks.push("tun");
    marks.push("tap");
    marks.push("utun");
    marks.push("virtual");
    marks.push("hyper-v");
    marks.push("vmware");
    marks.push("wsl");
    assert(str_views(marks@) =~= virtual_adapter_marks());
    let mut k: usize = 0;
    while k < marks.len()
        invariant
            k <= 8,
            marks@.len() == 8,
            str_views(marks@) == virtual_adapter_marks(),
            lower@ == ascii_lower_seq(name@),
            forall|j: int| 0 <= j < k ==> !has_infix(lower@, #[trigger] virtual_adapter_marks()[j]),
        decreases 8 - k,
    {
        let m = chars_of(marks[k]);
        assert(m@ == virtual_adapter_marks()[k as int]);
        if chars_contains(&lower, &m) {
            return true;
        }
        k = k + 1;
    }
    false
}

/// One line of the network check.
#[derive(Debug, Clone)]
pub struct NetworkCheckItem {
    pub label: String,
    pub status: String,
    pub detail: String,
}

/// The network check: whether it passed, the service port, the checks made
/// and what to try.
#[derive(Debug, Clone)]
pub struct NetworkDiagnosticReport {
    pub ok: bool,
    pub tcp_port: u16,
    pub checks: Vec<NetworkCheckItem>,
    pub suggestions: Vec<String>,
}

/// The state of peer discovery when the check runs.
#[derive(Debug, Clone)]
pub struct DiscoveryFacts {
    pub enabled: bool,
    pub running: bool,
    pub error: Option<String>,
    pub announce_interfaces: Vec<String>,
    pub multicast_addr: String,
    pub multicast_port: u16,
    pub skipped_interfaces: Vec<String>,
    pub socket_errors: Vec<String>,
}

/// A discovered device, as far as the check counts it.
#[derive(Debug, Clone, Copy, PartialEq, Eq, Structural)]
pub struct DeviceFacts {
    pub address_count: u64,
    pub compatible: bool,
}

/// Texts joined with a separator.
pub open spec fn join_sep(parts: Seq<Seq<char>>, sep: Seq<char>) -> Seq<char>
    decreases parts.len(),
{
    if parts.len() == 0 {
        Seq::empty()
    } else if parts.len() == 1 {
        parts[0]
    } else {
        join_sep(parts.drop_last(), sep) + sep + parts.last()
    }
}

/// Joins texts with a separator.
pub fn join_with(parts: &Vec<String>, sep: &str) -> (r: String)
    ensures
        r@ == join_sep(parts@.map_values(|p: String| p@), sep@),
{
    let ghost ps = parts@.map_values(|p: String| p@);
    let mut out = String::new();
    let mut i: usize = 0;
    while i < parts.len()
        invariant
            i <= parts@.len(),
            ps == parts@.map_values(|p: String| p@),
            out@ == join_sep(ps.take(i as int), sep@),
        decreases parts.len() - i,
    {
        let ghost before = out@;
        if i > 0 {
            push_str(&mut out, sep);
        }
        push_str(&mut out, parts[i].as_str());
        proof {
            assert(ps.take(i + 1).drop_last() =~= ps.take(i as int));
            assert(ps.take(i + 1).last() == ps[i as int]);
            if i == 0 {
                assert(out@ =~= ps.take(1)[0]);
            }
        }
        i = i + 1;
    }
    assert(ps.take(parts@.len() as int) =~= ps);
    out
}

/// The "name ip" text of each adapter.
pub open spec fn adapter_texts(adapters: Seq<(Seq<char>, Seq<char>)>) -> Seq<Seq<char>> {
    adapters.map_values(|a: (Seq<char>, Seq<char>)| a.0 + seq![' '] + a.1)
}

/// Adapters as plain text pairs.
pub open spec fn pair_view(v: Seq<(String, String)>) -> Seq<(Seq<char>, Seq<char>)> {
    v.map_values(|a: (String, String)| (a.0@, a.1@))
}

/// A check as plain text.
pub open spec fn check_view(c: NetworkCheckItem) -> (Seq<char>, Seq<char>, Seq<char>) {
    (c.label@, c.status@, c.detail@)
}

/// The check of the sync service.
pub open spec fn tcp_checks(tcp_port: u16, probe_error: Option<Seq<char>>) -> Seq<(Seq<char>, Seq<char>, Seq<char>)> {
    if tcp_port == 0 {
        seq![("TCP 服务"@, "error"@, "同步服务未监听端口，其他设备无法连接到本机。"@)]
    } else {
        match probe_error {
            None => seq![("TCP 服务"@, "ok"@, "本机同步服务正在监听 "@ + decimal(tcp_port as nat) + " 端口。"@)],
            Some(e) => seq![("TCP 服务"@, "error"@, "本机无法连通 127.0.0.1:"@ + decimal(tcp_port as nat) + "："@ + e)],
        }
    }
}

/// The checks of peer discovery.
pub open spec fn discovery_checks(d: DiscoveryFacts) -> Seq<(Seq<char>, Seq<char>, Seq<char>)> {
    if !d.enabled {
        seq![("自动发现"@, "warn"@, "自动发现已关闭，仍可使用手动 IP 连接。"@)]
    } else if d.running && d.error is None {
        let announce = if d.announce_interfaces@.len() == 0 {
            "暂未识别到广播网卡"@
        } else {
            "正在通过 "@ + join_sep(d.announce_interfaces@.map_values(|p: String| p@), "；"@) + " 广播"@
        };
        seq![("自动发现"@, "ok"@, "发现服务运行中，监听 "@ + d.multicast_addr@ + ":"@ + decimal(d.multicast_port as nat) + "，"@ + announce + "。"@)]
            + (if d.skipped_interfaces@.len() == 0 {
            Seq::empty()
        } else {
            seq![("自动发现网卡"@, "warn"@, "检测到低优先级 VPN/虚拟网卡："@ + join_sep(d.skipped_interfaces@.map_values(|p: String| p@), "；"@))]
        }) + (if d.socket_errors@.len() == 0 {
            Seq::empty()
        } else {
            seq![("自动发现诊断"@, "warn"@, join_sep(d.socket_errors@.map_values(|p: String| p@), "；"@))]
        })
    } else {
        seq![("自动发现"@, "error"@, match d.error {
            Some(e) => e@,
            None => "发现服务未运行。"@,
        })]
    }
}

/// The adapters that look like VPN or virtual ones, as "name ip" texts.
pub open spec fn virtual_texts(adapters: Seq<(Seq<char>, Seq<char>)>) -> Seq<Seq<char>> {
    adapter_texts(adapters.filter(|a: (Seq<char>, Seq<char>)| virtual_or_vpn(a.0)))
}

/// The checks of the machine's adapters.
pub open spec fn adapter_checks(adapters: Seq<(Seq<char>, Seq<char>)>) -> Seq<(Seq<char>, Seq<char>, Seq<char>)> {
    (if adapters.len() == 0 {
        seq![("本机网络"@, "error"@, "未检测到可用于局域网发现的 IPv4 地址。"@)]
    } else {
        seq![("本机网络"@, "ok"@, join_sep(adapter_texts(adapters), "；"@))]
    }) + (if virtual_texts(adapters).len() == 0 {
        Seq::empty()
    } else {
        seq![("VPN/虚拟网卡"@, "warn"@, "检测到可能影响默认路由的网卡："@ + join_sep(virtual_texts(adapters), "；"@))]
    })
}

/// The checks about the sync service, discovery and adapters, in order.
pub open spec fn service_checks(
    tcp_port: u16,
    probe_error: Option<Seq<char>>,
    d: DiscoveryFacts,
    adapters: Seq<(Seq<char>, Seq<char>)>,
) -> Seq<(Seq<char>, Seq<char>, Seq<char>)> {
    tcp_checks(tcp_port, probe_error) + discovery_checks(d) + adapter_checks(adapters)
}

/// Total advertised addresses of the devices.
pub open spec fn address_total(ds: Seq<DeviceFacts>) -> int
    decreases ds.len(),
{
    if ds.len() == 0 {
        0
    } else {
        address_total(ds.drop_last()) + ds.last().address_count
    }
}

/// Number of devices running an incompatible version.
pub open spec fn incompatible_total(ds: Seq<DeviceFacts>) -> int
    decreases ds.len(),
{
    if ds.len() == 0 {
        0
    } else {
        incompatible_total(ds.drop_last()) + if ds.last().compatible { 0int } else { 1int }
    }
}

/// The check about discovered devices.
pub open spec fn device_check(ds: Seq<DeviceFacts>) -> (Seq<char>, Seq<char>, Seq<char>) {
    if ds.len() == 0 {
        ("已发现设备"@, "warn"@, "当前没有发现其他设备。"@)
    } else {
        (
            "已发现设备"@,
            if incompatible_total(ds) > 0 { "warn"@ } else { "ok"@ },
            "发现 "@ + decimal(ds.len()) + " 台设备，合计 "@ + decimal(address_total(ds) as nat) + " 个可尝试地址"@
                + (if incompatible_total(ds) > 0 { "，其中有旧版设备"@ } else { ""@ }) + "。"@,
        )
    }
}

/// Advice about the sync service.
pub open spec fn tcp_suggestions(tcp_port: u16, probe_error: Option<Seq<char>>) -> Seq<Seq<char>> {
    if tcp_port == 0 {
        seq!["重启应用；如果仍失败，请检查本机端口占用或安全软件拦截。"@]
    } else if probe_error is Some {
        seq!["确认安全软件或系统防火墙没有拦截本应用的 TCP 服务。"@]
    } else {
        Seq::empty()
    }
}

/// Advice about discovery.
pub open spec fn discovery_suggestions(d: DiscoveryFacts) -> Seq<Seq<char>> {
    if d.enabled && !(d.running && d.error is None) {
        seq!["自动发现失败时，可先使用手动 IP 连接；同时检查 UDP 组播/广播是否被网络或 VPN 阻断。"@]
    } else {
        Seq::empty()
    }
}

/// Advice about the adapters.
pub open spec fn adapter_suggestions(adapters: Seq<(Seq<char>, Seq<char>)>) -> Seq<Seq<char>> {
    (if adapters.len() == 0 {
        seq!["确认电脑已连接到有线或无线局域网，并且没有只连接到不可达的 VPN 网络。"@]
    } else {
        Seq::empty()
    }) + (if virtual_texts(adapters).len() > 0 {
        seq!["如果自动发现不到设备，请临时关闭 VPN，或确认 VPN 允许局域网访问和 split tunnel。"@]
    } else {
        Seq::empty()
    })
}

/// Advice about discovered devices.
pub open spec fn device_suggestions(ds: Seq<DeviceFacts>, permission: Seq<char>) -> Seq<Seq<char>> {
    if ds.len() == 0 {
        seq![permission]
    } else if incompatible_total(ds) > 0 {
        seq!["发现到旧版设备时，请升级两端 LanBridge。"@]
    } else {
        Seq::empty()
    }
}

/// What to try, in the order the checks raise it.
pub open spec fn network_suggestions(
    tcp_port: u16,
    probe_error: Option<Seq<char>>,
    d: DiscoveryFacts,
    adapters: Seq<(Seq<char>, Seq<char>)>,
    ds: Seq<DeviceFacts>,
    permission: Seq<char>,
) -> Seq<Seq<char>> {
    tcp_suggestions(tcp_port, probe_error) + discovery_suggestions(d) + adapter_suggestions(adapters)
        + device_suggestions(ds, permission)
}

/// Checks as plain text.
pub open spec fn checks_view(v: Seq<NetworkCheckItem>) -> Seq<(Seq<char>, Seq<char>, Seq<char>)> {
    v.map_values(|c: NetworkCheckItem| check_view(c))
}

/// Texts as plain text.
pub open spec fn texts_view(v: Seq<String>) -> Seq<Seq<char>> {
    v.map_values(|p: String| p@)
}

fn push_check(checks: &mut Vec<NetworkCheckItem>, label: &str, status: &str, detail: String)
    ensures
        final(checks)@.map_values(|c: NetworkCheckItem| check_view(c)) == old(checks)@.map_values(
            |c: NetworkCheckItem| check_view(c),
        ).push((label@, status@, detail@)),
{
    let ghost before = checks@.map_values(|c: NetworkCheckItem| check_view(c));
    checks.push(
        NetworkCheckItem {
            label: crate::text::to_owned_string(label),
            status: crate::text::to_owned_string(status),
            detail,
        },
    );
    assert(checks@.map_values(|c: NetworkCheckItem| check_view(c)) =~= before.push((label@, status@, detail@)));
}

fn push_text(out: &mut Vec<String>, text: &str)
    ensures
        final(out)@.map_values(|p: String| p@) == old(out)@.map_values(|p: String| p@).push(text@),
{
    let ghost before = out@.map_values(|p: String| p@);
    out.push(crate::text::to_owned_string(text));
    assert(out@.map_values(|p: String| p@) =~= before.push(text@));
}

fn number(n: u64) -> (r: Vec<char>)
    ensures
        r@ == decimal(n as nat),
{
    u64_to_decimal(n)
}

/// The "name ip" texts of the adapters that look like VPN or virtual ones.
fn virtual_adapter_texts(adapters: &[(String, String)]) -> (r: Vec<String>)
    ensures
        r@.map_values(|p: String| p@) == adapter_texts(pair_view(adapters@).filter(|a: (Seq<char>, Seq<char>)| virtual_or_vpn(a.0))),
{
    let ghost pv = pair_view(adapters@);
    let ghost pred = |a: (Seq<char>, Seq<char>)| virtual_or_vpn(a.0);
    let mut out: Vec<String> = Vec::new();
    let mut i: usize = 0;
    while i < adapters.len()
        invariant
            i <= adapters@.len(),
            pv == pair_view(adapters@),
            pred == (|a: (Seq<char>, Seq<char>)| virtual_or_vpn(a.0)),
            out@.map_values(|p: String| p@) == adapter_texts(pv.take(i as int).filter(pred)),
        decreases adapters.len() - i,
    {
        proof {
            assert(pv.take(i + 1) =~= pv.take(i as int).push(pv[i as int]));
            pv.take(i as int).lemma_filter_push(pv[i as int], pred);
        }
        let ghost before = out@.map_values(|p: String| p@);
        assert(pv[i as int] == (adapters@[i as int].0@, adapters@[i as int].1@));
        if looks_like_virtual_or_vpn(adapters[i].0.as_str()) {
            let mut t = crate::text::to_owned_string(adapters[i].0.as_str());
            crate::text::push_char(&mut t, ' ');
            push_str(&mut t, adapters[i].1.as_str());
            assert(t@ =~= pv[i as int].0 + seq![' '] + pv[i as int].1);
            out.push(t);
            assert(out@.map_values(|p: String| p@) =~= before.push(pv[i as int].0 + seq![' '] + pv[i as int].1));
        }
        assert(adapter_texts(pv.take(i as int).filter(pred).push(pv[i as int])) =~= adapter_texts(pv.take(i as int).filter(pred)).push(pv[i as int].0 + seq![' '] + pv[i as int].1));
        i = i + 1;
    }
    assert(pv.take(adapters@.len() as int) =~= pv);
    out
}

fn adapter_lines(adapters: &[(String, String)]) -> (r: Vec<String>)
    ensures
        r@.map_values(|p: String| p@) == adapter_texts(pair_view(adapters@)),
{
    let mut out: Vec<String> = Vec::new();
    let mut i: usize = 0;
    while i < adapters.len()
        invariant
            i <= adapters@.len(),
            out@.map_values(|p: String| p@) == adapter_texts(pair_view(adapters@)).take(i as int),
        decreases adapters.len() - i,
    {
        let ghost before = out@.map_values(|p: String| p@);
        let mut t = crate::text::to_owned_string(adapters[i].0.as_str());
        crate::text::push_char(&mut t, ' ');
        push_str(&mut t, adapters[i].1.as_str());
        assert(t@ =~= adapters@[i as int].0@ + seq![' '] + adapters@[i as int].1@);
        assert(pair_view(adapters@)[i as int] == (adapters@[i as int].0@, adapters@[i as int].1@));
        assert(adapter_texts(pair_view(adapters@))[i as int] == t@);
        out.push(t);
        assert(out@.map_values(|p: String| p@) =~= before.push(t@));
        assert(before.push(t@) =~= adapter_texts(pair_view(adapters@)).take(i + 1));
        i = i + 1;
    }
    assert(adapter_texts(pair_view(adapters@)).take(adapters@.len() as int) =~= adapter_texts(pair_view(adapters@)));
    out
}

fn add_tcp_checks(checks: &mut Vec<NetworkCheckItem>, suggestions: &mut Vec<String>, tcp_port: u16, probe_error: Option<&str>)
    ensures
        checks_view(final(checks)@) == checks_view(old(checks)@) + tcp_checks(tcp_port, match probe_error { Some(e) => Some(e@), None => None }),
        texts_view(final(suggestions)@) == texts_view(old(suggestions)@) + tcp_suggestions(tcp_port, match probe_error { Some(e) => Some(e@), None => None }),
{
    let ghost c0 = checks_view(checks@);
    let ghost s0 = texts_view(suggestions@);
    if tcp_port == 0 {
        push_check(checks, "TCP 服务", "error", crate::text::to_owned_string("同步服务未监听端口，其他设备无法连接到本机。"));
        push_text(suggestions, "重启应用；如果仍失败，请检查本机端口占用或安全软件拦截。");
    } else {
        match probe_error {
            None => {
                let mut detail = crate::text::to_owned_string("本机同步服务正在监听 ");
                push_chars(&mut detail, &number(tcp_port as u64));
                push_str(&mut detail, " 端口。");
                push_check(checks, "TCP 服务", "ok", detail);
            },
            Some(e) => {
                let mut detail = crate::text::to_owned_string("本机无法连通 127.0.0.1:");
                push_chars(&mut detail, &number(tcp_port as u64));
                push_str(&mut detail, "：");
                push_str(&mut detail, e);
                push_check(checks, "TCP 服务", "error", detail);
                push_text(suggestions, "确认安全软件或系统防火墙没有拦截本应用的 TCP 服务。");
            },
        }
    }
    assert(checks_view(checks@) =~= c0 + tcp_checks(tcp_port, match probe_error { Some(e) => Some(e@), None => None }));
    assert(texts_view(suggestions@) =~= s0 + tcp_suggestions(tcp_port, match probe_error { Some(e) => Some(e@), None => None }));
}

fn add_discovery_checks(checks: &mut Vec<NetworkCheckItem>, suggestions: &mut Vec<String>, discovery: &DiscoveryFacts)
    ensures
        checks_view(final(checks)@) == checks_view(old(checks)@) + discovery_checks(*discovery),
        texts_view(final(suggestions)@) == texts_view(old(suggestions)@) + discovery_suggestions(*discovery),
{
    let ghost c0 = checks_view(checks@);
    let ghost s0 = texts_view(suggestions@);
    if !discovery.enabled {
        push_check(checks, "自动发现", "warn", crate::text::to_owned_string("自动发现已关闭，仍可使用手动 IP 连接。"));
    } else if discovery.running && discovery.error.is_none() {
        let announce = if discovery.announce_interfaces.len() == 0 {
            crate::text::to_owned_string("暂未识别到广播网卡")
        } else {
            let mut a = crate::text::to_owned_string("正在通过 ");
            let joined = join_with(&discovery.announce_interfaces, "；");
            push_str(&mut a, joined.as_str());
            push_str(&mut a, " 广播");
            a
        };
        let mut detail = crate::text::to_owned_string("发现服务运行中，监听 ");
        push_str(&mut detail, discovery.multicast_addr.as_str());
        push_str(&mut detail, ":");
        push_chars(&mut detail, &number(discovery.multicast_port as u64));
        push_str(&mut detail, "，");
        push_str(&mut detail, announce.as_str());
        push_str(&mut detail, "。");
        push_check(checks, "自动发现", "ok", detail);
        let ghost c1 = checks_view(checks@);
        if discovery.skipped_interfaces.len() > 0 {
            let mut detail2 = crate::text::to_owned_string("检测到低优先级 VPN/虚拟网卡：");
            let joined = join_with(&discovery.skipped_interfaces, "；");
            push_str(&mut detail2, joined.as_str());
            push_check(checks, "自动发现网卡", "warn", detail2);
        }
        let ghost c2 = checks_view(checks@);
        if discovery.socket_errors.len() > 0 {
            let joined = join_with(&discovery.socket_errors, "；");
            push_check(checks, "自动发现诊断", "warn", joined);
        }
    } else {
        let detail = match &discovery.error {
            Some(e) => e.clone(),
            None => crate::text::to_owned_string("发现服务未运行。"),
        };
        push_check(checks, "自动发现", "error", detail);
        push_text(suggestions, "自动发现失败时，可先使用手动 IP 连接；同时检查 UDP 组播/广播是否被网络或 VPN 阻断。");
    }
    assert(checks_view(checks@) =~= c0 + discovery_checks(*discovery));
    assert(texts_view(suggestions@) =~= s0 + discovery_suggestions(*discovery));
}

fn add_adapter_checks(checks: &mut Vec<NetworkCheckItem>, suggestions: &mut Vec<String>, adapters: &[(String, String)])
    ensures
        checks_view(final(checks)@) == checks_view(old(checks)@) + adapter_checks(pair_view(adapters@)),
        texts_view(final(suggestions)@) == texts_view(old(suggestions)@) + adapter_suggestions(pair_view(adapters@)),
{
    let ghost c0 = checks_view(checks@);
    let ghost s0 = texts_view(suggestions@);
    if adapters.len() == 0 {
        push_check(checks, "本机网络", "error", crate::text::to_owned_string("未检测到可用于局域网发现的 IPv4 地址。"));
        push_text(suggestions, "确认电脑已连接到有线或无线局域网，并且没有只连接到不可达的 VPN 网络。");
    } else {
        let lines = adapter_lines(adapters);
        let joined = join_with(&lines, "；");
        push_check(checks, "本机网络", "ok", joined);
    }
    let virt = virtual_adapter_texts(adapters);
    if virt.len() > 0 {
        let mut detail = crate::text::to_owned_string("检测到可能影响默认路由的网卡：");
        let joined = join_with(&virt, "；");
        push_str(&mut detail, joined.as_str());
        push_check(checks, "VPN/虚拟网卡", "warn", detail);
        push_text(suggestions, "如果自动发现不到设备，请临时关闭 VPN，或确认 VPN 允许局域网访问和 split tunnel。");
    }
    assert(checks_view(checks@) =~= c0 + adapter_checks(pair_view(adapters@)));
    assert(texts_view(suggestions@) =~= s0 + adapter_suggestions(pair_view(adapters@)));
}

fn add_device_checks(
    checks: &mut Vec<NetworkCheckItem>,
    suggestions: &mut Vec<String>,
    devices: &[DeviceFacts],
    permission_suggestion: &str,
)
    requires
        address_total(devices@) <= u64::MAX,
    ensures
        checks_view(final(checks)@) == checks_view(old(checks)@).push(device_check(devices@)),
        texts_view(final(suggestions)@) == texts_view(old(suggestions)@) + device_suggestions(devices@, permission_suggestion@),
{
    let ghost s0 = texts_view(suggestions@);
    if devices.len() == 0 {
        push_check(checks, "已发现设备", "warn", crate::text::to_owned_string("当前没有发现其他设备。"));
        push_text(suggestions, permission_suggestion);
    } else {
        let mut addresses: u64 = 0;
        let mut incompatible: u64 = 0;
        let mut i: usize = 0;
        while i < devices.len()
            invariant
                i <= devices@.len(),
                address_total(devices@) <= u64::MAX,
                addresses == address_total(devices@.take(i as int)),
                incompatible == incompatible_total(devices@.take(i as int)),
                incompatible <= i,
            decreases devices.len() - i,
        {
            assert(devices@.take(i + 1).drop_last() =~= devices@.take(i as int));
            proof {
                lemma_total_prefix(devices@, i + 1);
            }
            addresses = addresses + devices[i].address_count;
            if !devices[i].compatible {
                incompatible = incompatible + 1;
            }
            i = i + 1;
        }
        assert(devices@.take(devices@.len() as int) =~= devices@);
        let mut detail = crate::text::to_owned_string("发现 ");
        push_chars(&mut detail, &number(devices.len() as u64));
        push_str(&mut detail, " 台设备，合计 ");
        push_chars(&mut detail, &number(addresses));
        push_str(&mut detail, " 个可尝试地址");
        if incompatible > 0 {
            push_str(&mut detail, "，其中有旧版设备");
        } else {
            push_str(&mut detail, "");
        }
        push_str(&mut detail, "。");
        let status = if incompatible > 0 { "warn" } else { "ok" };
        push_check(checks, "已发现设备", status, detail);
        if incompatible > 0 {
            push_text(suggestions, "发现到旧版设备时，请升级两端 LanBridge。");
        }
    }
    assert(texts_view(suggestions@) =~= s0 + device_suggestions(devices@, permission_suggestion@));
}

/// Builds the network check report from what was observed: the service
/// port and whether connecting to it locally failed (`probe_error`), the
/// discovery state, the machine's IPv4 adapters (name, address), the
/// discovered devices, and the platform's advice on network permissions.
pub fn build_network_report(
    tcp_port: u16,
    probe_error: Option<&str>,
    discovery: &DiscoveryFacts,
    adapters: &[(String, String)],
    devices: &[DeviceFacts],
    permission_suggestion: &str,
) -> (r: NetworkDiagnosticReport)
    requires
        address_total(devices@) <= u64::MAX,
    ensures
        r.tcp_port == tcp_port,
        checks_view(r.checks@) == service_checks(
            tcp_port,
            match probe_error { Some(e) => Some(e@), None => None },
            *discovery,
            pair_view(adapters@),
        ).push(device_check(devices@)),
        texts_view(r.suggestions@) == network_suggestions(
            tcp_port,
            match probe_error { Some(e) => Some(e@), None => None },
            *discovery,
            pair_view(adapters@),
            devices@,
            permission_suggestion@,
        ),
        r.ok == !exists|k: int| 0 <= k < r.checks@.len() && (#[trigger] r.checks@[k]).status@ == "error"@,
{
    let mut checks: Vec<NetworkCheckItem> = Vec::new();
    let mut suggestions: Vec<String> = Vec::new();
    assert(checks_view(checks@) =~= Seq::<(Seq<char>, Seq<char>, Seq<char>)>::empty());
    assert(texts_view(suggestions@) =~= Seq::<Seq<char>>::empty());
    add_tcp_checks(&mut checks, &mut suggestions, tcp_port, probe_error);
    add_discovery_checks(&mut checks, &mut suggestions, discovery);
    add_adapter_checks(&mut checks, &mut suggestions, adapters);
    add_device_checks(&mut checks, &mut suggestions, devices, permission_suggestion);
    let mut ok = true;
    let mut k: usize = 0;
    while k < checks.len()
        invariant
            k <= checks@.len(),
            ok == !exists|j: int| 0 <= j < k && (#[trigger] checks@[j]).status@ == "error"@,
        decreases checks.len() - k,
    {
        if str_eq(checks[k].status.as_str(), "error") {
            ok = false;
        }
        k = k + 1;
    }
    NetworkDiagnosticReport { ok, tcp_port, checks, suggestions }
}

proof fn lemma_total_prefix(ds: Seq<DeviceFacts>, k: int)
    requires
        0 <= k <= ds.len(),
    ensures
        address_total(ds.take(k)) <= address_total(ds),
    decreases ds.len() - k,
{
    if k < ds.len() {
        lemma_total_prefix(ds, k + 1);
        assert(ds.take(k + 1).drop_last() =~= ds.take(k));
    } else {
        assert(ds.take(k) =~= ds);
    }
}

/// An IPv4 address that can reach the local network: not loopback
/// (127/8), not link-local (169.254/16), not unspecified (0.0.0.0).
pub open spec fn usable_lan_ipv4(o: Seq<u8>) -> bool {
    &&& o[0] != 127
    &&& !(o[0] == 169 && o[1] == 254)
    &&& !(o[0] == 0 && o[1] == 0 && o[2] == 0 && o[3] == 0)
}

/// An IPv4 address in dotted decimal.
pub open spec fn ipv4_text(o: Seq<u8>) -> Seq<char> {
    decimal(o[0] as nat) + seq!['.'] + decimal(o[1] as nat) + seq!['.'] + decimal(o[2] as nat) + seq!['.']
        + decimal(o[3] as nat)
}

/// The interfaces with a usable address, as (name, address) text.
pub open spec fn lan_adapters_spec(interfaces: Seq<(String, [u8; 4])>) -> Seq<(Seq<char>, Seq<char>)>
    decreases interfaces.len(),
{
    if interfaces.len() == 0 {
        Seq::empty()
    } else {
        let prev = lan_adapters_spec(interfaces.drop_last());
        let last = interfaces.last();
        if usable_lan_ipv4(last.1@) {
            prev.push((last.0@, ipv4_text(last.1@)))
        } else {
            prev
        }
    }
}

/// Writes an IPv4 address in dotted decimal.
pub fn format_ipv4(o: [u8; 4]) -> (r: String)
    ensures
        r@ == ipv4_text(o@),
{
    let mut s = String::new();
    push_chars(&mut s, &u64_to_decimal(o[0] as u64));
    crate::text::push_char(&mut s, '.');
    push_chars(&mut s, &u64_to_decimal(o[1] as u64));
    crate::text::push_char(&mut s, '.');
    push_chars(&mut s, &u64_to_decimal(o[2] as u64));
    crate::text::push_char(&mut s, '.');
    push_chars(&mut s, &u64_to_decimal(o[3] as u64));
    assert(s@ =~= ipv4_text(o@));
    s
}

/// The local IPv4 interfaces the network check reports: those whose address
/// can reach the local network, each with its address as text.
pub fn lan_ipv4_adapters(interfaces: &[(String, [u8; 4])]) -> (r: Vec<(String, String)>)
    ensures
        pair_view(r@) == lan_adapters_spec(interfaces@),
{
    let mut out: Vec<(String, String)> = Vec::new();
    let mut i: usize = 0;
    while i < interfaces.len()
        invariant
            i <= interfaces@.len(),
            pair_view(out@) == lan_adapters_spec(interfaces@.take(i as int)),
        decreases interfaces.len() - i,
    {
        let o = interfaces[i].1;
        assert(interfaces@.take(i + 1).drop_last() =~= interfaces@.take(i as int));
        assert(interfaces@.take(i + 1).last() == interfaces@[i as int]);
        let usable = o[0] != 127 && !(o[0] == 169 && o[1] == 254) && !(o[0] == 0 && o[1] == 0 && o[2] == 0 && o[3] == 0);
        if usable {
            let ghost before = pair_view(out@);
            let name = interfaces[i].0.clone();
            let text = format_ipv4(o);
            out.push((name, text));
            assert(pair_view(out@) =~= before.push((interfaces@[i as int].0@, ipv4_text(o@))));
        }
        i = i + 1;
    }
    assert(interfaces@.take(interfaces@.len() as int) =~= interfaces@);
    out
}

} // verus!
