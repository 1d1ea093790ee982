use traceroute_rust::address::Ipv4Address;
use traceroute_rust::checksum::internet_checksum;
use traceroute_rust::generator::{ProbeGenerator, WireFields};
use traceroute_rust::parser::ProbeResponseParser;
use traceroute_rust::probe::ProbeMethod;
use traceroute_rust::wire::{echo_request_bytes, protocol_of};

fn ip_header(protocol: u8, words: u8, from: [u8; 4], to: [u8; 4]) -> Vec<u8> {
    let mut header = vec![0x40 + words, 0, 0, 0, 0, 0, 0, 0, 1, protocol, 0, 0];
    header.extend_from_slice(&from);
    header.extend_from_slice(&to);
    while header.len() < (words as usize) * 4 {
        header.push(0);
    }
    header
}

fn report(kind: u8, code: u8, inner_protocol: u8, leading: &[u8]) -> Vec<u8> {
    let mut frame = ip_header(1, 5, [10, 0, 0, 1], [192, 168, 1, 2]);
    frame.extend_from_slice(&[kind, code, 0, 0, 0, 0, 0, 0]);
    frame.extend_from_slice(&ip_header(inner_protocol, 5, [192, 168, 1, 2], [93, 184, 216, 34]));
    frame.extend_from_slice(leading);
    frame
}

fn generator(method: ProbeMethod) -> ProbeGenerator {
    ProbeGenerator::new(method, 33434, 30, 3).unwrap()
}

#[test]
fn generator_keeps_its_parameters() {
    let g = generator(ProbeMethod::TCP);
    assert_eq!(g.method(), ProbeMethod::TCP);
    assert_eq!(g.base_port(), 33434);
    assert_eq!(g.hops(), 30);
    assert_eq!(g.queries_per_hop(), 3);
}

#[test]
fn generator_refuses_what_does_not_fit() {
    assert!(ProbeGenerator::new(ProbeMethod::UDP, 33434, 256, 3).is_none());
    assert!(ProbeGenerator::new(ProbeMethod::UDP, 65535, 1, 2).is_none());
    assert!(ProbeGenerator::new(ProbeMethod::UDP, 65000, 255, 3).is_none());
    assert!(ProbeGenerator::new(ProbeMethod::UDP, 65535, 1, 1).is_some());
    assert!(ProbeGenerator::new(ProbeMethod::UDP, 0, 255, 257).is_some());
    assert!(ProbeGenerator::new(ProbeMethod::UDP, 1, 255, 257).is_some());
    assert!(ProbeGenerator::new(ProbeMethod::UDP, 2, 255, 257).is_none());
    assert!(ProbeGenerator::new(ProbeMethod::UDP, 65535, 0, 65535).is_some());
    assert!(ProbeGenerator::new(ProbeMethod::UDP, 65535, 255, 0).is_some());
}

#[test]
fn token_is_base_plus_place() {
    let g = generator(ProbeMethod::UDP);
    assert_eq!(g.token(1, 0), 33434);
    assert_eq!(g.token(1, 2), 33436);
    assert_eq!(g.token(2, 0), 33437);
    assert_eq!(g.token(5, 2), 33448);
    assert_eq!(g.token(30, 2), 33523);
}

#[test]
fn probe_id_is_the_token_in_decimal() {
    let g = generator(ProbeMethod::UDP);
    assert_eq!(g.probe_id(1, 0), "33434");
    assert_eq!(g.probe_id(5, 2), "33448");
    assert_eq!(ProbeGenerator::token_id(33448), "33448");
    assert_eq!(ProbeGenerator::token_id(0), "0");
}

#[test]
fn probe_ids_of_a_run_are_pairwise_distinct() {
    let g = generator(ProbeMethod::UDP);
    let mut ids: Vec<String> = Vec::new();
    for ttl in 1..=30u8 {
        for query in 0..3u16 {
            ids.push(g.probe_id(ttl, query));
        }
    }
    assert_eq!(ids.len(), 90);
    for i in 0..ids.len() {
        for j in (i + 1)..ids.len() {
            assert_ne!(ids[i], ids[j]);
        }
    }
}

#[test]
fn decode_gives_back_ttl_and_query() {
    for method in [ProbeMethod::UDP, ProbeMethod::TCP, ProbeMethod::ICMP] {
        let g = generator(method);
        for ttl in 1..=30u8 {
            for query in 0..3u16 {
                assert_eq!(g.decode(g.token(ttl, query)), Some((ttl, query)));
            }
        }
    }
}

#[test]
fn decode_refuses_tokens_outside_the_run() {
    let g = generator(ProbeMethod::UDP);
    assert_eq!(g.decode(33433), None);
    assert_eq!(g.decode(33524), None);
    assert_eq!(g.decode(0), None);
    assert_eq!(g.decode(65535), None);
    assert_eq!(g.decode(33434), Some((1, 0)));
    assert_eq!(g.decode(33523), Some((30, 2)));
    let none = ProbeGenerator::new(ProbeMethod::UDP, 33434, 30, 0).unwrap();
    assert_eq!(none.decode(33434), None);
}

#[test]
fn wire_fields_carry_the_token() {
    let udp = generator(ProbeMethod::UDP);
    assert_eq!(udp.wire_fields(5, 2), WireFields::Port { destination_port: 33448 });
    let tcp = generator(ProbeMethod::TCP);
    assert_eq!(tcp.wire_fields(1, 0), WireFields::Port { destination_port: 33434 });
    let echo = generator(ProbeMethod::ICMP);
    assert_eq!(echo.wire_fields(5, 2), WireFields::Echo { identifier: 33434, sequence: 14 });
    assert_eq!(echo.wire_fields(1, 0), WireFields::Echo { identifier: 33434, sequence: 0 });
}

#[test]
fn generated_probe_is_described_in_full() {
    let g = generator(ProbeMethod::UDP);
    let to = Ipv4Address::new(93, 184, 216, 34);
    let probe = g.generate(5, 2, to, 777);
    assert_eq!(probe.id, "33448");
    assert_eq!(probe.ttl, 5);
    assert_eq!(probe.method, ProbeMethod::UDP);
    assert_eq!(probe.destination, to);
    assert_eq!(probe.fields, WireFields::Port { destination_port: 33448 });
    assert_eq!(probe.sent_at, 777);
}

#[test]
fn protocol_numbers() {
    assert_eq!(protocol_of(ProbeMethod::UDP), 17);
    assert_eq!(protocol_of(ProbeMethod::TCP), 6);
    assert_eq!(protocol_of(ProbeMethod::ICMP), 1);
}

#[test]
fn checksum_of_known_messages() {
    assert_eq!(internet_checksum(&[0x00, 0x01, 0xf2, 0x03, 0xf4, 0xf5, 0xf6, 0xf7]), 0x220d);
    assert_eq!(internet_checksum(&[]), 0xffff);
    assert_eq!(internet_checksum(&[0xff, 0xff]), 0x0000);
    assert_eq!(internet_checksum(&[0x01]), 0xfeff);
    assert_eq!(internet_checksum(&[0x12, 0x34, 0x56]), 0xffff - (0x1234 + 0x5600));
    assert_eq!(internet_checksum(&[0xff, 0xff, 0x00, 0x02]), 0xfffd);
}

#[test]
fn message_with_its_checksum_sums_to_ones() {
    let bytes = echo_request_bytes(0x1234, 0x0001);
    assert_eq!(bytes, vec![8, 0, 0xe5, 0xca, 0x12, 0x34, 0x00, 0x01]);
    assert_eq!(internet_checksum(&bytes), 0);
}

#[test]
fn leading_bytes_of_each_method() {
    let to = Ipv4Address::new(93, 184, 216, 34);
    let udp = generator(ProbeMethod::UDP).generate(5, 2, to, 0);
    assert_eq!(udp.leading_bytes(0xc001), vec![0xc0, 0x01, 0x82, 0xa8, 0, 8, 0, 0]);
    let tcp = generator(ProbeMethod::TCP).generate(5, 2, to, 0);
    assert_eq!(tcp.leading_bytes(0xc001), vec![0xc0, 0x01, 0x82, 0xa8, 0, 0, 0, 0]);
    let echo = generator(ProbeMethod::ICMP).generate(5, 2, to, 0);
    let bytes = echo.leading_bytes(0xc001);
    assert_eq!(bytes.len(), 8);
    assert_eq!(&bytes[0..2], &[8, 0]);
    assert_eq!(&bytes[4..8], &[0x82, 0x9a, 0, 14]);
    assert_eq!(internet_checksum(&bytes), 0);
}

#[test]
fn time_exceeded_gives_back_every_probe() {
    let router = Ipv4Address::new(10, 0, 0, 1);
    let to = Ipv4Address::new(93, 184, 216, 34);
    for method in [ProbeMethod::UDP, ProbeMethod::TCP, ProbeMethod::ICMP] {
        let g = generator(method);
        let parser = ProbeResponseParser::new(g);
        for ttl in 1..=30u8 {
            for query in 0..3u16 {
                let probe = g.generate(ttl, query, to, 0);
                let frame = report(11, 0, protocol_of(method), &probe.leading_bytes(40000));
                let parsed = parser.parse(&frame, router).unwrap();
                assert_eq!(parsed.response.probe_id(), g.probe_id(ttl, query));
                assert_eq!(parsed.response.from_address(), router);
                assert!(!parsed.destination_reached);
                let token: u16 = parsed.response.probe_id().parse().unwrap();
                assert_eq!(g.decode(token), Some((ttl, query)));
            }
        }
    }
}

#[test]
fn time_exceeded_with_header_options_is_read() {
    let g = generator(ProbeMethod::UDP);
    let parser = ProbeResponseParser::new(g);
    let probe = g.generate(7, 1, Ipv4Address::new(93, 184, 216, 34), 0);
    let mut frame = ip_header(1, 6, [10, 0, 0, 1], [192, 168, 1, 2]);
    frame.extend_from_slice(&[11, 0, 0, 0, 0, 0, 0, 0]);
    frame.extend_from_slice(&ip_header(17, 7, [192, 168, 1, 2], [93, 184, 216, 34]));
    frame.extend_from_slice(&probe.leading_bytes(40000));
    let parsed = parser.parse(&frame, Ipv4Address::new(10, 0, 0, 1)).unwrap();
    assert_eq!(parsed.response.probe_id(), "33453");
    assert!(!parsed.destination_reached);
}

#[test]
fn port_unreachable_is_the_destination_of_a_udp_probe() {
    let g = generator(ProbeMethod::UDP);
    let parser = ProbeResponseParser::new(g);
    let to = Ipv4Address::new(93, 184, 216, 34);
    let probe = g.generate(5, 2, to, 0);
    let frame = report(3, 3, 17, &probe.leading_bytes(40000));
    let parsed = parser.parse(&frame, to).unwrap();
    assert_eq!(parsed.response.probe_id(), "33448");
    assert_eq!(parsed.response.from_address(), to);
    assert!(parsed.destination_reached);
}

#[test]
fn port_unreachable_means_nothing_to_other_methods() {
    let to = Ipv4Address::new(93, 184, 216, 34);
    let tcp = generator(ProbeMethod::TCP);
    let probe = tcp.generate(5, 2, to, 0);
    let frame = report(3, 3, 6, &probe.leading_bytes(40000));
    assert!(ProbeResponseParser::new(tcp).parse(&frame, to).is_none());
}

#[test]
fn other_unreachable_codes_are_passed_over() {
    let g = generator(ProbeMethod::UDP);
    let to = Ipv4Address::new(93, 184, 216, 34);
    let probe = g.generate(5, 2, to, 0);
    let frame = report(3, 1, 17, &probe.leading_bytes(40000));
    assert!(ProbeResponseParser::new(g).parse(&frame, to).is_none());
    let frame = report(11, 1, 17, &probe.leading_bytes(40000));
    assert!(ProbeResponseParser::new(g).parse(&frame, to).is_none());
}

#[test]
fn echo_reply_is_the_destination_of_an_echo_probe() {
    let g = generator(ProbeMethod::ICMP);
    let parser = ProbeResponseParser::new(g);
    let to = Ipv4Address::new(93, 184, 216, 34);
    let mut frame = ip_header(1, 5, [93, 184, 216, 34], [192, 168, 1, 2]);
    frame.extend_from_slice(&[0, 0, 0, 0, 0x82, 0x9a, 0, 14]);
    let parsed = parser.parse(&frame, to).unwrap();
    assert_eq!(parsed.response.probe_id(), "33448");
    assert!(parsed.destination_reached);
    let mut foreign = ip_header(1, 5, [93, 184, 216, 34], [192, 168, 1, 2]);
    foreign.extend_from_slice(&[0, 0, 0, 0, 0x82, 0x9b, 0, 14]);
    assert!(parser.parse(&foreign, to).is_none());
    assert!(ProbeResponseParser::new(generator(ProbeMethod::UDP)).parse(&frame, to).is_none());
}

#[test]
fn reset_and_accept_are_the_destination_of_a_tcp_probe() {
    let g = generator(ProbeMethod::TCP);
    let parser = ProbeResponseParser::new(g);
    let to = Ipv4Address::new(93, 184, 216, 34);
    for flags in [0x04u8, 0x14, 0x12] {
        let mut frame = ip_header(6, 5, [93, 184, 216, 34], [192, 168, 1, 2]);
        frame.extend_from_slice(&[0x82, 0xa8, 0xc0, 0x01, 0, 0, 0, 0, 0, 0, 0, 1, 0x50, flags, 0, 0, 0, 0, 0, 0]);
        let parsed = parser.parse(&frame, to).unwrap();
        assert_eq!(parsed.response.probe_id(), "33448");
        assert!(parsed.destination_reached);
    }
    for flags in [0x00u8, 0x02, 0x10, 0x18, 0x01] {
        let mut frame = ip_header(6, 5, [93, 184, 216, 34], [192, 168, 1, 2]);
        frame.extend_from_slice(&[0x82, 0xa8, 0xc0, 0x01, 0, 0, 0, 0, 0, 0, 0, 1, 0x50, flags, 0, 0, 0, 0, 0, 0]);
        assert!(parser.parse(&frame, to).is_none());
    }
    let mut frame = ip_header(6, 5, [93, 184, 216, 34], [192, 168, 1, 2]);
    frame.extend_from_slice(&[0x82, 0xa8, 0xc0, 0x01, 0, 0, 0, 0, 0, 0, 0, 1, 0x50, 0x04, 0, 0, 0, 0, 0, 0]);
    assert!(ProbeResponseParser::new(generator(ProbeMethod::UDP)).parse(&frame, to).is_none());
}

#[test]
fn unrelated_traffic_is_passed_over() {
    let g = generator(ProbeMethod::UDP);
    let parser = ProbeResponseParser::new(g);
    let from = Ipv4Address::new(10, 0, 0, 1);
    let probe = g.generate(5, 2, Ipv4Address::new(93, 184, 216, 34), 0);
    let good = report(11, 0, 17, &probe.leading_bytes(40000));
    assert!(parser.parse(&good, from).is_some());
    assert!(parser.parse(&[], from).is_none());
    assert!(parser.parse(&[0x45], from).is_none());
    assert!(parser.parse(&good[..19], from).is_none());
    assert!(parser.parse(&good[..27], from).is_none());
    assert!(parser.parse(&good[..47], from).is_none());
    assert!(parser.parse(&good[..55], from).is_none());
    assert!(parser.parse(&good[..56], from).is_some());
    let mut v6 = good.clone();
    v6[0] = 0x65;
    assert!(parser.parse(&v6, from).is_none());
    let mut short_header = good.clone();
    short_header[0] = 0x44;
    assert!(parser.parse(&short_header, from).is_none());
    let mut long_header = good.clone();
    long_header[0] = 0x4f;
    assert!(parser.parse(&long_header, from).is_none());
    let mut udp = good.clone();
    udp[9] = 17;
    assert!(parser.parse(&udp, from).is_none());
    let mut inner_v6 = good.clone();
    inner_v6[28] = 0x65;
    assert!(parser.parse(&inner_v6, from).is_none());
    let mut inner_tcp = good.clone();
    inner_tcp[37] = 6;
    assert!(parser.parse(&inner_tcp, from).is_none());
    let mut echo = good.clone();
    echo[20] = 8;
    assert!(parser.parse(&echo, from).is_none());
}

#[test]
fn tokens_outside_the_run_are_passed_over() {
    let g = generator(ProbeMethod::UDP);
    let parser = ProbeResponseParser::new(g);
    let from = Ipv4Address::new(10, 0, 0, 1);
    assert!(parser.parse(&report(11, 0, 17, &[0xc0, 0x01, 0x82, 0x99, 0, 8, 0, 0]), from).is_none());
    assert!(parser.parse(&report(11, 0, 17, &[0xc0, 0x01, 0x82, 0xf4, 0, 8, 0, 0]), from).is_none());
    assert!(parser.parse(&report(11, 0, 17, &[0xc0, 0x01, 0x82, 0xf3, 0, 8, 0, 0]), from).is_some());
    assert!(parser.parse(&report(11, 0, 17, &[0xc0, 0x01, 0x82, 0x9a, 0, 8, 0, 0]), from).is_some());
    let echo = ProbeResponseParser::new(generator(ProbeMethod::ICMP));
    assert!(echo.parse(&report(11, 0, 1, &[8, 0, 0, 0, 0x82, 0x9a, 0, 89]), from).is_some());
    assert!(echo.parse(&report(11, 0, 1, &[8, 0, 0, 0, 0x82, 0x9a, 0, 90]), from).is_none());
    assert!(echo.parse(&report(11, 0, 1, &[8, 0, 0, 0, 0x82, 0x9a, 0xff, 0xff]), from).is_none());
    assert!(echo.parse(&report(11, 0, 1, &[0, 0, 0, 0, 0x82, 0x9a, 0, 1]), from).is_none());
    assert!(echo.parse(&report(11, 0, 1, &[8, 0, 0, 0, 0x82, 0x9b, 0, 1]), from).is_none());
}
