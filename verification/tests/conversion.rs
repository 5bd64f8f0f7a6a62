use axfr2tf::emitter::{
    convert_message, record_resource_name, write_record, write_record_data, write_record_info,
};
use axfr2tf::format::rrdata_literal;
use axfr2tf::grouper::group_records;
use axfr2tf::records::{RecordData, RecordGroup, RecordType, ResourceRecord};
use axfr2tf::zone::validate_zone_arg;

fn rec(name: &str, rtype: RecordType, ttl: u32, data: RecordData) -> ResourceRecord {
    ResourceRecord { name: String::from(name), rtype, ttl, data }
}

fn a_rec(name: &str, ttl: u32, a: u8, b: u8, c: u8, d: u8) -> ResourceRecord {
    rec(name, RecordType::A, ttl, RecordData::A(a, b, c, d))
}

fn group_of(records: Vec<ResourceRecord>) -> RecordGroup {
    RecordGroup {
        rtype: records[0].rtype,
        name: records[0].name.clone(),
        ttl: records[0].ttl,
        records,
    }
}

#[test]
fn grouping_adjacency() {
    // keys [A/x, A/x, MX/x, A/x] yield three groups; the third A/x run
    // does not merge with the first despite the identical key
    let input = vec![
        a_rec("x.example.com.", 60, 192, 0, 2, 1),
        a_rec("x.example.com.", 61, 192, 0, 2, 2),
        rec(
            "x.example.com.",
            RecordType::Mx,
            62,
            RecordData::Mx(10, String::from("mail.example.com.")),
        ),
        a_rec("x.example.com.", 63, 192, 0, 2, 3),
    ];
    let gs = group_records(input);
    assert_eq!(gs.len(), 3);
    assert_eq!(gs[0].records.len(), 2);
    assert_eq!(gs[1].records.len(), 1);
    assert_eq!(gs[2].records.len(), 1);
    assert!(matches!(gs[0].rtype, RecordType::A));
    assert!(matches!(gs[1].rtype, RecordType::Mx));
    assert!(matches!(gs[2].rtype, RecordType::A));
    // group header fields come from the first record of the run
    assert_eq!(gs[0].ttl, 60);
    assert_eq!(gs[2].ttl, 63);
}

#[test]
fn grouping_splits_on_name_change() {
    let input = vec![
        a_rec("a.example.com.", 60, 192, 0, 2, 1),
        a_rec("b.example.com.", 60, 192, 0, 2, 2),
    ];
    let gs = group_records(input);
    assert_eq!(gs.len(), 2);
    assert_eq!(gs[0].name, "a.example.com.");
    assert_eq!(gs[1].name, "b.example.com.");
}

#[test]
fn grouping_order_preservation() {
    // concatenating the records of all groups reproduces the input order
    let input = vec![
        a_rec("x.example.com.", 1, 192, 0, 2, 1),
        a_rec("x.example.com.", 2, 192, 0, 2, 2),
        rec("x.example.com.", RecordType::Ns, 3, RecordData::Ns(String::from("ns.example.com."))),
        a_rec("y.example.com.", 4, 192, 0, 2, 3),
    ];
    let gs = group_records(input);
    let mut ttls: Vec<u32> = Vec::new();
    for g in &gs {
        for r in &g.records {
            ttls.push(r.ttl);
        }
    }
    assert_eq!(ttls, vec![1, 2, 3, 4]);
}

#[test]
fn grouping_empty_input() {
    let gs = group_records(Vec::new());
    assert_eq!(gs.len(), 0);
}

#[test]
fn grouping_single_record() {
    let gs = group_records(vec![a_rec("x.example.com.", 60, 192, 0, 2, 1)]);
    assert_eq!(gs.len(), 1);
    assert_eq!(gs[0].records.len(), 1);
}

#[test]
fn filtering_ns_of_zone_itself() {
    // an NS group whose name equals the zone's own domain name is skipped
    let g = group_of(vec![rec(
        "example.com.",
        RecordType::Ns,
        300,
        RecordData::Ns(String::from("ns1.example.com.")),
    )]);
    assert!(write_record("example.com.", "myzone", &g).is_none());
}

#[test]
fn filtering_ns_of_zone_ignores_ascii_case() {
    // DNS name comparison folds ASCII case, as the zone transfer's own
    // name equality does
    let g = group_of(vec![rec(
        "Example.COM.",
        RecordType::Ns,
        300,
        RecordData::Ns(String::from("ns1.example.com.")),
    )]);
    assert!(write_record("example.com.", "myzone", &g).is_none());
}

#[test]
fn filtering_ns_of_other_name_is_emitted() {
    let g = group_of(vec![rec(
        "sub.example.com.",
        RecordType::Ns,
        300,
        RecordData::Ns(String::from("ns1.example.com.")),
    )]);
    let out = write_record("example.com.", "myzone", &g);
    assert!(out.is_some());
    assert!(out.unwrap().contains("dns_sub_example_com_NS"));
}

#[test]
fn filtering_unsupported_type_is_skipped() {
    let g = group_of(vec![rec("x.example.com.", RecordType::Other, 300, RecordData::Other)]);
    assert!(write_record("example.com.", "myzone", &g).is_none());
}

#[test]
fn identifier_derivation_plain_name() {
    // trailing separator becomes an underscore and is then stripped
    let id = record_resource_name("foo.bar.baz.", RecordType::A);
    assert_eq!(id, "dns_foo_bar_baz_A");
}

#[test]
fn identifier_derivation_wildcard() {
    // the wildcard marker is replaced after separator substitution
    let id = record_resource_name("*.foo.", RecordType::Cname);
    assert_eq!(id, "dns_star_foo_CNAME");
}

#[test]
fn identifier_derivation_no_trailing_separator() {
    let id = record_resource_name("foo.bar", RecordType::Mx);
    assert_eq!(id, "dns_foo_bar_MX");
}

#[test]
fn a_literal_dotted_decimal() {
    let lit = rrdata_literal(&RecordData::A(192, 0, 2, 1)).unwrap();
    assert_eq!(lit, "192.0.2.1");
    let lit = rrdata_literal(&RecordData::A(0, 255, 10, 99)).unwrap();
    assert_eq!(lit, "0.255.10.99");
}

#[test]
fn mx_literal_preference_and_exchange() {
    // preference 10, exchange mail.example.com. -> "10 mail.example.com."
    let lit =
        rrdata_literal(&RecordData::Mx(10, String::from("mail.example.com."))).unwrap();
    assert_eq!(lit, "10 mail.example.com.");
}

#[test]
fn cname_and_ns_literals_are_the_target_name() {
    let lit = rrdata_literal(&RecordData::Cname(String::from("target.example.com."))).unwrap();
    assert_eq!(lit, "target.example.com.");
    let lit = rrdata_literal(&RecordData::Ns(String::from("ns1.example.com."))).unwrap();
    assert_eq!(lit, "ns1.example.com.");
}

#[test]
fn other_payload_has_no_literal() {
    assert!(rrdata_literal(&RecordData::Other).is_none());
}

#[test]
fn txt_510_byte_chunk_gets_one_break_and_no_wrapping() {
    // 510 bytes without a space: exactly one segment break immediately
    // after the 255th character, and no outer escaped quotes
    let chunk: Vec<u8> = vec![b'a'; 510];
    let lit = rrdata_literal(&RecordData::Txt(vec![chunk])).unwrap();
    let mut expected = "a".repeat(255);
    expected.push_str("\\\"\\\"");
    expected.push_str(&"a".repeat(255));
    assert_eq!(lit, expected);
}

#[test]
fn txt_space_triggers_wrapping() {
    // a chunk with a space is wrapped in an escaped quote pair that a
    // space-free chunk of otherwise identical content lacks
    let with_space = rrdata_literal(&RecordData::Txt(vec![b"hello world".to_vec()])).unwrap();
    assert_eq!(with_space, "\\\"hello world\\\"");
    let without_space = rrdata_literal(&RecordData::Txt(vec![b"helloworld".to_vec()])).unwrap();
    assert_eq!(without_space, "helloworld");
}

#[test]
fn txt_quote_bytes_are_escaped() {
    let lit = rrdata_literal(&RecordData::Txt(vec![b"a\"b".to_vec()])).unwrap();
    assert_eq!(lit, "a\\\"b");
}

#[test]
fn txt_chunks_share_one_literal() {
    // all chunks of one record are concatenated inside one outer pair of
    // quotes; each chunk keeps its own space-triggered wrapping
    let lit =
        rrdata_literal(&RecordData::Txt(vec![b"a b".to_vec(), b"cd".to_vec()])).unwrap();
    assert_eq!(lit, "\\\"a b\\\"cd");
}

#[test]
fn rrdatas_section_lists_each_record() {
    let records = vec![
        a_rec("x.example.com.", 60, 192, 0, 2, 1),
        a_rec("x.example.com.", 60, 192, 0, 2, 2),
    ];
    let s = write_record_data(&records);
    assert_eq!(s, "  rrdatas = [\n    \"192.0.2.1\",\n    \"192.0.2.2\",\n  ]\n");
}

#[test]
fn rrdatas_section_skips_unsupported_payload() {
    // a malformed payload contributes no entry; the list still emits
    let records = vec![
        a_rec("x.example.com.", 60, 192, 0, 2, 1),
        rec("x.example.com.", RecordType::A, 60, RecordData::Other),
    ];
    let s = write_record_data(&records);
    assert_eq!(s, "  rrdatas = [\n    \"192.0.2.1\",\n  ]\n");
}

#[test]
fn rrdatas_section_empty_records() {
    // an empty run still renders an empty list rather than failing
    let s = write_record_data(&Vec::new());
    assert_eq!(s, "  rrdatas = [\n  ]\n");
}

#[test]
fn full_block_layout() {
    let records = vec![a_rec("www.example.com.", 300, 192, 0, 2, 1)];
    let s = write_record_info("myzone", RecordType::A, "www.example.com.", 300, &records);
    let expected = "resource \"google_dns_record_set\" \"dns_www_example_com_A\" {\n  name = \"www.example.com.\"\n  managed_zone = google_dns_managed_zone.myzone.name\n  type = \"A\"\n  ttl = 300\n  rrdatas = [\n    \"192.0.2.1\",\n  ]\n}\n\n";
    assert_eq!(s, expected);
}

#[test]
fn convert_message_emits_blocks_in_order() {
    let input = vec![
        a_rec("www.example.com.", 300, 192, 0, 2, 1),
        rec(
            "example.com.",
            RecordType::Mx,
            600,
            RecordData::Mx(5, String::from("mail.example.com.")),
        ),
    ];
    let out = convert_message("example.com.", "myzone", input);
    let first = out.find("dns_www_example_com_A").unwrap();
    let second = out.find("dns_example_com_MX").unwrap();
    assert!(first < second);
    assert!(out.contains("    \"5 mail.example.com.\",\n"));
}

#[test]
fn convert_message_empty_input_yields_no_output() {
    let out = convert_message("example.com.", "myzone", Vec::new());
    assert_eq!(out, "");
}

#[test]
fn convert_message_skips_zone_ns_but_keeps_other_ns() {
    let input = vec![
        rec("example.com.", RecordType::Ns, 300, RecordData::Ns(String::from("ns1.example.com."))),
        rec(
            "sub.example.com.",
            RecordType::Ns,
            300,
            RecordData::Ns(String::from("ns2.example.com.")),
        ),
    ];
    let out = convert_message("example.com.", "myzone", input);
    assert!(!out.contains("dns_example_com_NS"));
    assert!(out.contains("dns_sub_example_com_NS"));
}

#[test]
fn round_trip_idempotence() {
    // re-running the pipeline on an unchanged input produces
    // byte-identical output
    let make_input = || {
        vec![
            a_rec("www.example.com.", 300, 192, 0, 2, 1),
            rec(
                "example.com.",
                RecordType::Txt,
                600,
                RecordData::Txt(vec![b"v=spf1 -all".to_vec()]),
            ),
            rec(
                "example.com.",
                RecordType::Mx,
                600,
                RecordData::Mx(5, String::from("mail.example.com.")),
            ),
        ]
    };
    let out1 = convert_message("example.com.", "myzone", make_input());
    let out2 = convert_message("example.com.", "myzone", make_input());
    assert_eq!(out1, out2);
}

#[test]
fn ttl_zero_and_large_render_in_decimal() {
    let records = vec![a_rec("x.example.com.", 0, 192, 0, 2, 1)];
    let s = write_record_info("z", RecordType::A, "x.example.com.", 0, &records);
    assert!(s.contains("  ttl = 0\n"));
    let s = write_record_info("z", RecordType::A, "x.example.com.", 4294967295, &records);
    assert!(s.contains("  ttl = 4294967295\n"));
}

#[test]
fn validate_zone_arg_accepts_fully_qualified() {
    assert!(validate_zone_arg(String::from("example.com.")).is_ok());
}

#[test]
fn validate_zone_arg_rejects_unqualified() {
    let r = validate_zone_arg(String::from("example.com"));
    assert_eq!(
        r.unwrap_err(),
        "Zone must be fully-qualified and end in a period ('.')."
    );
    assert!(validate_zone_arg(String::new()).is_err());
}
