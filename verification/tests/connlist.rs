use daqingest::addr::{ip_to_text, parse_ipv4, parse_octet};
use daqingest::connlist::{
    first_two, getent_args, parse_getent_hosts, parse_host_line, resolve_connection_names, resolve_names,
};
use daqingest::metrics::{ConnectionListV1, ConnectionListV1Conn1};

fn ip(a: u32, b: u32, c: u32, d: u32) -> u32 {
    (a << 24) | (b << 16) | (c << 8) | d
}

#[test]
fn ipv4_text_and_parse() {
    assert_eq!(ip_to_text(ip(10, 0, 255, 7)), "10.0.255.7");
    assert_eq!(parse_ipv4("10.0.255.7"), Some(ip(10, 0, 255, 7)));
    assert_eq!(parse_ipv4("0.0.0.0"), Some(0));
    assert_eq!(parse_ipv4("255.255.255.255"), Some(u32::MAX));
    for v in [0u32, 1, 0x7f00_0001, 0xc0a8_0101, u32::MAX, 0x0a01_0203] {
        assert_eq!(parse_ipv4(&ip_to_text(v)), Some(v));
    }
}

#[test]
fn ipv4_parse_rejects_malformed() {
    let cases: [(&str, Option<u32>); 16] = [
        ("1.2.3.4", Some(ip(1, 2, 3, 4))),
        ("127.0.0.1", Some(ip(127, 0, 0, 1))),
        ("1.2.3", None),
        ("1.2.3.4.5", None),
        ("01.2.3.4", None),
        ("1.2.3.256", None),
        ("1..3.4", None),
        ("", None),
        ("a.b.c.d", None),
        ("1.2.3.4 ", None),
        (" 1.2.3.4", None),
        ("1.2.3.0004", None),
        ("192.168.001.1", None),
        ("1.2.3.-4", None),
        ("+1.2.3.4", None),
        ("0.0.0.00", None),
    ];
    for (c, expected) in cases {
        assert_eq!(parse_ipv4(c), expected, "{c:?}");
    }
}

#[test]
fn octet_rules() {
    assert_eq!(parse_octet("0"), Some(0));
    assert_eq!(parse_octet("00"), None);
    assert_eq!(parse_octet("255"), Some(255));
    assert_eq!(parse_octet("256"), None);
    assert_eq!(parse_octet("1000"), None);
    assert_eq!(parse_octet(""), None);
}

#[test]
fn first_two_words_of_a_line() {
    assert_eq!(first_two("10.0.0.1   host-a alias"), Some(("10.0.0.1".to_string(), "host-a".to_string())));
    assert_eq!(first_two("  a b"), Some(("a".to_string(), "b".to_string())));
    assert_eq!(first_two("single"), None);
    assert_eq!(first_two("single   "), None);
    assert_eq!(first_two(""), None);
    // A tab is no separator.
    assert_eq!(first_two("a\tb c"), Some(("a\tb".to_string(), "c".to_string())));
}

#[test]
fn host_lines() {
    assert_eq!(parse_host_line("10.1.2.3 ioc-one"), Some((ip(10, 1, 2, 3), "ioc-one".to_string())));
    assert_eq!(parse_host_line("fe80::1 ioc-six"), None);
    assert_eq!(parse_host_line("10.1.2.3"), None);
}

#[test]
fn getent_output_resolves_names() {
    let out = "10.1.2.3        ioc-one\n10.1.2.4        ioc-two ioc-two-alias\nbad line here\n10.1.2.3 ioc-one-b\n";
    let entries = parse_getent_hosts(out);
    assert_eq!(
        entries,
        vec![
            (ip(10, 1, 2, 3), "ioc-one".to_string()),
            (ip(10, 1, 2, 4), "ioc-two".to_string()),
            (ip(10, 1, 2, 3), "ioc-one-b".to_string()),
        ]
    );
    let mut list = vec![
        ConnectionListV1Conn1 { ip: ip(10, 1, 2, 3), port: 5064, name: "todo-resolve".to_string() },
        ConnectionListV1Conn1 { ip: ip(10, 1, 2, 9), port: 5064, name: "todo-resolve".to_string() },
        ConnectionListV1Conn1 { ip: ip(10, 1, 2, 4), port: 5065, name: "todo-resolve".to_string() },
    ];
    resolve_names(&mut list, &entries);
    // The last entry for an address wins.
    assert_eq!(list[0].name, "ioc-one-b");
    assert_eq!(list[1].name, "todo-resolve");
    assert_eq!(list[2].name, "ioc-two");
    assert_eq!(list[2].port, 5065);
}

#[test]
fn connection_list_lookup() {
    let mut cl = ConnectionListV1 {
        ingest_name: "node".to_string(),
        list: (0..25)
            .map(|i| ConnectionListV1Conn1 { ip: ip(10, 0, 0, i), port: 5064, name: "todo-resolve".to_string() })
            .collect(),
    };
    let args = getent_args(&cl.list);
    assert_eq!(args.len(), 21);
    assert_eq!(args[0], "hosts");
    assert_eq!(args[1], "10.0.0.0");
    assert_eq!(args[20], "10.0.0.19");
    resolve_connection_names(&mut cl, "10.0.0.5 five");
    assert_eq!(cl.list[5].name, "five");
    assert_eq!(cl.list[6].name, "todo-resolve");
    assert_eq!(cl.ingest_name, "node");
}

use daqingest::addr::AddrV4;
use daqingest::connset::{connset_cmd, ConnSetCore, ConnsetCmd};

#[test]
fn connset_cmd_dispatch() {
    assert_eq!(connset_cmd(Some("test01")), ConnsetCmd::Test01);
    assert_eq!(connset_cmd(Some("connset_state_channel_full")), ConnsetCmd::StateChannelFull);
    assert_eq!(connset_cmd(Some("connset_state_channel_all")), ConnsetCmd::StateChannelAll);
    assert_eq!(connset_cmd(Some("ca_conn_state_proto")), ConnsetCmd::CaConnStateProto);
    assert_eq!(connset_cmd(Some("channel_details_v00")), ConnsetCmd::ChannelDetailsV00);
    assert_eq!(connset_cmd(Some("other")), ConnsetCmd::Unknown);
    assert_eq!(connset_cmd(None), ConnsetCmd::NotBase);
    assert_eq!(ConnsetCmd::Unknown.error_msg(), Some("command unknown"));
    assert_eq!(ConnsetCmd::NotBase.error_msg(), Some("not a DynCmdV03Base"));
    assert_eq!(ConnsetCmd::Test01.error_msg(), None);
}

#[test]
fn connset_connection_list_and_addr_regex() {
    let mut core = ConnSetCore::new();
    assert!(core.route_add(AddrV4::from_octets(10, 0, 0, 2, 5064)));
    assert!(core.route_add(AddrV4::from_octets(10, 0, 0, 1, 5064)));
    assert!(core.route_add(AddrV4::from_octets(192, 168, 1, 1, 5065)));
    let cl = core.connection_list("node-a".to_string());
    assert_eq!(cl.ingest_name, "node-a");
    assert_eq!(cl.list.len(), 3);
    assert_eq!(cl.list[0].ip, ip(10, 0, 0, 1));
    assert_eq!(cl.list[0].name, "todo-resolve");
    let m = core.conns_by_addr_regex(r"^10\.0\.0\.").unwrap();
    assert_eq!(m, vec![AddrV4::from_octets(10, 0, 0, 1, 5064), AddrV4::from_octets(10, 0, 0, 2, 5064)]);
    let m = core.conns_by_addr_regex(":5065$").unwrap();
    assert_eq!(m, vec![AddrV4::from_octets(192, 168, 1, 1, 5065)]);
    assert!(core.conns_by_addr_regex("(").is_err());
}

use daqingest::connset::WriteStaging;

#[test]
fn write_staging_batches_while_idle() {
    let mut w: WriteStaging<u32> = WriteStaging::new();
    let p = w.poll(false);
    assert_eq!(p.batch, None);
    assert!(!p.progress);
    assert!(!p.pending);
    w.stage(vec![1, 2]);
    w.stage(vec![3]);
    let p = w.poll(false);
    assert_eq!(p.batch, Some(vec![1, 2, 3]));
    assert!(p.progress && p.pending);
    w.stage(vec![4]);
    // The sender is busy: the item stays staged.
    let p = w.poll(false);
    assert_eq!(p.batch, None);
    assert!(!p.progress && p.pending);
    // The send is over: the next batch goes at once.
    let p = w.poll(true);
    assert_eq!(p.batch, Some(vec![4]));
    assert!(p.progress && p.pending);
    let p = w.poll(true);
    assert_eq!(p.batch, None);
    assert!(p.progress && !p.pending);
}
