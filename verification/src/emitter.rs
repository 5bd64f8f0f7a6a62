//! The emitter: derives the resource identifier for a record group and
//! renders the group's complete configuration block, filtering out
//! unsupported types and the zone's own NS record set.

use vstd::prelude::*;
use vstd::string::StrSliceExecFns;
use vstd::string::StringExecFns;

use crate::format::{rrdata_literal, rrdata_literal_spec};
use crate::grouper::{group_records, runs_of};
use crate::records::{RecordGroup, RecordType, ResourceRecord};
use crate::text::{dec_of, eq_ignore_ascii_case, push_chars, push_decimal, str_eq_ignore_ascii_case};

verus! {

/// The record name with every separator `'.'` replaced by `'_'`.
pub open spec fn replace_dots(s: Seq<char>) -> Seq<char> {
    s.map_values(|c: char| if c == '.' { '_' } else { c })
}

/// One trailing underscore, the artifact of a trailing separator, is
/// stripped.
pub open spec fn strip_one_trailing_underscore(s: Seq<char>) -> Seq<char> {
    if s.len() > 0 && s.last() == '_' {
        s.drop_last()
    } else {
        s
    }
}

/// Every wildcard marker `'*'` replaced by the literal token `star`.
pub open spec fn replace_star(s: Seq<char>) -> Seq<char>
    decreases s.len(),
{
    if s.len() == 0 {
        Seq::<char>::empty()
    } else {
        replace_star(s.drop_last()) + (if s.last() == '*' {
            "star"@
        } else {
            seq![s.last()]
        })
    }
}

/// The synthesized identifier of a record group's configuration block.
pub open spec fn resource_name_spec(name: Seq<char>, t: RecordType) -> Seq<char> {
    "dns_"@ + replace_star(strip_one_trailing_underscore(replace_dots(name))) + "_"@
        + t.type_str_spec()
}

/// Derives the configuration block's identifier from the record name
/// and type: separators become underscores, one trailing underscore is
/// stripped, wildcards become `star`, and the result is framed as
/// `dns_<name>_<type>`.
pub fn record_resource_name(record_name: &str, record_type: RecordType) -> (r: String)
    ensures
        r@ == resource_name_spec(record_name@, record_type),
{
    let n = record_name.unicode_len();
    let mut t: Vec<char> = Vec::new();
    let mut i: usize = 0;
    while i < n
        invariant
            i <= n,
            n == record_name@.len(),
            t@ == replace_dots(record_name@.take(i as int)),
        decreases n - i,
    {
        let c = record_name.get_char(i);
        if c == '.' {
            t.push('_');
        } else {
            t.push(c);
        }
        proof {
            assert(t@ =~= replace_dots(record_name@.take(i + 1)));
        }
        i += 1;
    }
    proof {
        assert(record_name@.take(n as int) =~= record_name@);
    }
    if t.len() > 0 && t[t.len() - 1] == '_' {
        t.pop();
    }
    let ghost stripped = strip_one_trailing_underscore(replace_dots(record_name@));
    assert(t@ == stripped);
    let mut u: Vec<char> = Vec::new();
    let mut j: usize = 0;
    while j < t.len()
        invariant
            j <= t@.len(),
            t@ == stripped,
            u@ == replace_star(t@.take(j as int)),
        decreases t@.len() - j,
    {
        let c = t[j];
        if c == '*' {
            u.push('s');
            u.push('t');
            u.push('a');
            u.push('r');
            proof {
                reveal_strlit("star");
            }
        } else {
            u.push(c);
        }
        proof {
            assert(t@.take(j + 1).drop_last() =~= t@.take(j as int));
            assert(u@ =~= replace_star(t@.take(j + 1)));
        }
        j += 1;
    }
    proof {
        assert(t@.take(t@.len() as int) =~= t@);
    }
    let mut s = String::from_str("dns_");
    push_chars(&mut s, &u);
    s.append("_");
    let ts = record_type.type_str();
    s.append(ts.as_str());
    proof {
        assert(s@ =~= resource_name_spec(record_name@, record_type));
    }
    s
}

/// The `rrdatas` line contributed by one record: a quoted literal, or
/// nothing for a payload shape that is not rendered.
pub open spec fn rrdata_line(r: ResourceRecord) -> Seq<char> {
    match rrdata_literal_spec(r.data) {
        Some(l) => "    \""@ + l + "\",\n"@,
        None => Seq::<char>::empty(),
    }
}

/// The `rrdatas` lines of a run of records, in record order.
pub open spec fn rrdata_lines(records: Seq<ResourceRecord>) -> Seq<char>
    decreases records.len(),
{
    if records.len() == 0 {
        Seq::<char>::empty()
    } else {
        rrdata_lines(records.drop_last()) + rrdata_line(records.last())
    }
}

/// The complete `rrdatas` list field of a block.
pub open spec fn rrdatas_text(records: Seq<ResourceRecord>) -> Seq<char> {
    "  rrdatas = [\n"@ + rrdata_lines(records) + "  ]\n"@
}

/// Renders the `rrdatas` list field for the records of one group,
/// preserving record order; records with unsupported payload shapes
/// contribute no entry.
pub fn write_record_data(records: &Vec<ResourceRecord>) -> (r: String)
    ensures
        r@ == rrdatas_text(records@),
{
    let mut s = String::from_str("  rrdatas = [\n");
    let mut i: usize = 0;
    while i < records.len()
        invariant
            i <= records@.len(),
            s@ == "  rrdatas = [\n"@ + rrdata_lines(records@.take(i as int)),
        decreases records@.len() - i,
    {
        match rrdata_literal(&records[i].data) {
            Some(lit) => {
                s.append("    \"");
                s.append(lit.as_str());
                s.append("\",\n");
            },
            None => {},
        }
        proof {
            assert(records@.take(i + 1).drop_last() =~= records@.take(i as int));
            assert(s@ =~= "  rrdatas = [\n"@ + rrdata_lines(records@.take(i + 1)));
        }
        i += 1;
    }
    proof {
        assert(records@.take(records@.len() as int) =~= records@);
    }
    s.append("  ]\n");
    proof {
        assert(s@ =~= rrdatas_text(records@));
    }
    s
}

/// The full configuration block for one record group: identifier line,
/// `name`, `managed_zone` reference, `type`, `ttl`, and the `rrdatas`
/// list, terminated by a blank line.
pub open spec fn block_text(
    rtype: RecordType,
    name: Seq<char>,
    ttl: u32,
    records: Seq<ResourceRecord>,
    zone_resource: Seq<char>,
) -> Seq<char> {
    "resource \"google_dns_record_set\" \""@ + resource_name_spec(name, rtype) + "\" {\n"@
        + "  name = \""@ + name + "\"\n"@ + "  managed_zone = google_dns_managed_zone."@
        + zone_resource + ".name\n"@ + "  type = \""@ + rtype.type_str_spec() + "\"\n"@
        + "  ttl = "@ + dec_of(ttl as nat) + "\n"@ + rrdatas_text(records) + "}\n\n"@
}

/// Renders one group's complete configuration block. The zone resource
/// is referenced by an attribute-access expression, not a quoted string.
pub fn write_record_info(
    zone_resource: &str,
    record_type: RecordType,
    record_name: &str,
    record_ttl: u32,
    records: &Vec<ResourceRecord>,
) -> (r: String)
    ensures
        r@ == block_text(record_type, record_name@, record_ttl, records@, zone_resource@),
{
    let id = record_resource_name(record_name, record_type);
    let ts = record_type.type_str();
    let mut s = String::from_str("resource \"google_dns_record_set\" \"");
    s.append(id.as_str());
    s.append("\" {\n");
    s.append("  name = \"");
    s.append(record_name);
    s.append("\"\n");
    s.append("  managed_zone = google_dns_managed_zone.");
    s.append(zone_resource);
    s.append(".name\n");
    s.append("  type = \"");
    s.append(ts.as_str());
    s.append("\"\n");
    s.append("  ttl = ");
    push_decimal(&mut s, record_ttl);
    s.append("\n");
    let data = write_record_data(records);
    s.append(data.as_str());
    s.append("}\n\n");
    proof {
        assert(s@ =~= block_text(record_type, record_name@, record_ttl, records@, zone_resource@));
    }
    s
}

/// Whether a group is emitted at all: only the supported types are,
/// and NS only when the record name differs from the zone's own domain
/// name (the zone's own NS records are managed by the zone resource).
pub open spec fn should_write(rtype: RecordType, name: Seq<char>, zone_name: Seq<char>) -> bool {
    match rtype {
        RecordType::A => true,
        RecordType::Cname => true,
        RecordType::Txt => true,
        RecordType::Mx => true,
        RecordType::Ns => !eq_ignore_ascii_case(name, zone_name),
        RecordType::Other => false,
    }
}

/// Renders one group's configuration block, or nothing when the group's
/// type is filtered out.
pub fn write_record(zone_dns_name: &str, zone_tf_resource: &str, group: &RecordGroup) -> (r: Option<
    String,
>)
    ensures
        should_write(group.rtype, group.name@, zone_dns_name@) ==> r is Some && r->Some_0@
            == block_text(
            group.rtype,
            group.name@,
            group.ttl,
            group.records@,
            zone_tf_resource@,
        ),
        !should_write(group.rtype, group.name@, zone_dns_name@) ==> r is None,
{
    let accept = match group.rtype {
        RecordType::A => true,
        RecordType::Cname => true,
        RecordType::Txt => true,
        RecordType::Mx => true,
        RecordType::Ns => !str_eq_ignore_ascii_case(group.name.as_str(), zone_dns_name),
        RecordType::Other => false,
    };
    if accept {
        Some(
            write_record_info(
                zone_tf_resource,
                group.rtype,
                group.name.as_str(),
                group.ttl,
                &group.records,
            ),
        )
    } else {
        None
    }
}

/// The text emitted for one run of records: its block when the run's
/// type is accepted, nothing otherwise.
pub open spec fn run_text(
    run: Seq<ResourceRecord>,
    zone_name: Seq<char>,
    zone_resource: Seq<char>,
) -> Seq<char> {
    if run.len() > 0 && should_write(run[0].rtype, run[0].name@, zone_name) {
        block_text(run[0].rtype, run[0].name@, run[0].ttl, run, zone_resource)
    } else {
        Seq::<char>::empty()
    }
}

/// The concatenated blocks of a sequence of runs, in run order.
pub open spec fn blocks_text(
    runs: Seq<Seq<ResourceRecord>>,
    zone_name: Seq<char>,
    zone_resource: Seq<char>,
) -> Seq<char>
    decreases runs.len(),
{
    if runs.len() == 0 {
        Seq::<char>::empty()
    } else {
        blocks_text(runs.drop_last(), zone_name, zone_resource) + run_text(
            runs.last(),
            zone_name,
            zone_resource,
        )
    }
}

/// The whole text emitted for one ordered record sequence: the records
/// are grouped by adjacency and each accepted group contributes one
/// block.
pub open spec fn message_text(
    rs: Seq<ResourceRecord>,
    zone_name: Seq<char>,
    zone_resource: Seq<char>,
) -> Seq<char> {
    blocks_text(runs_of(rs), zone_name, zone_resource)
}

/// Groups one ordered record sequence and renders the blocks of all
/// accepted groups, in input order.
pub fn convert_message(zone_dns_name: &str, zone_tf_resource: &str, records: Vec<ResourceRecord>) -> (out:
    String)
    ensures
        out@ == message_text(records@, zone_dns_name@, zone_tf_resource@),
{
    let ghost rs = records@;
    let gs = group_records(records);
    let ghost runs = runs_of(rs);
    let mut out = String::new();
    let mut i: usize = 0;
    while i < gs.len()
        invariant
            i <= gs@.len(),
            gs@.map_values(|g: RecordGroup| g.records@) == runs,
            forall|k: int| 0 <= k < gs@.len() ==> (#[trigger] gs@[k]).wf(),
            runs == runs_of(rs),
            out@ == blocks_text(runs.take(i as int), zone_dns_name@, zone_tf_resource@),
        decreases gs@.len() - i,
    {
        match write_record(zone_dns_name, zone_tf_resource, &gs[i]) {
            Some(b) => {
                out.append(b.as_str());
            },
            None => {},
        }
        proof {
            assert(gs@[i as int].records@ == runs[i as int]);
            assert(runs[i as int].len() > 0);
            assert(gs@[i as int].rtype == runs[i as int][0].rtype);
            assert(gs@[i as int].name@ == runs[i as int][0].name@);
            assert(gs@[i as int].ttl == runs[i as int][0].ttl);
            assert(runs.take(i + 1).drop_last() =~= runs.take(i as int));
            assert(out@ =~= blocks_text(runs.take(i + 1), zone_dns_name@, zone_tf_resource@));
        }
        i += 1;
    }
    proof {
        assert(runs.take(runs.len() as int) =~= runs);
    }
    out
}

/// Law: the emitted text is a function of the input records and the
/// zone context alone; two runs over the same input yield identical
/// text.
pub proof fn lemma_output_deterministic(
    out1: Seq<char>,
    out2: Seq<char>,
    rs: Seq<ResourceRecord>,
    zone_name: Seq<char>,
    zone_resource: Seq<char>,
)
    requires
        out1 == message_text(rs, zone_name, zone_resource),
        out2 == message_text(rs, zone_name, zone_resource),
    ensures
        out1 == out2,
{
}

} // verus!
