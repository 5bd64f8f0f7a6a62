//! The record model: record types, type-tagged payloads, and groups of
//! consecutive records that share a (type, name) key.

use vstd::prelude::*;

verus! {

/// The DNS record types the converter distinguishes. Every type outside
/// the supported set is mapped to `Other` and filtered from the output.
#[derive(Clone, Copy, PartialEq, Eq, Structural, Debug)]
pub enum RecordType {
    A,
    Ns,
    Cname,
    Mx,
    Txt,
    Other,
}

impl RecordType {
    /// The textual form of the type, as it appears in the emitted block.
    pub open spec fn type_str_spec(self) -> Seq<char> {
        match self {
            RecordType::A => "A"@,
            RecordType::Ns => "NS"@,
            RecordType::Cname => "CNAME"@,
            RecordType::Mx => "MX"@,
            RecordType::Txt => "TXT"@,
            RecordType::Other => "OTHER"@,
        }
    }

    pub fn type_str(self) -> (r: String)
        ensures
            r@ == self.type_str_spec(),
    {
        match self {
            RecordType::A => String::from_str("A"),
            RecordType::Ns => String::from_str("NS"),
            RecordType::Cname => String::from_str("CNAME"),
            RecordType::Mx => String::from_str("MX"),
            RecordType::Txt => String::from_str("TXT"),
            RecordType::Other => String::from_str("OTHER"),
        }
    }
}

/// A record's type-specific payload. An IPv4 address is held as its four
/// octets; a TXT payload as its wire-format byte chunks; `Other` stands
/// for every payload shape the converter does not render.
pub enum RecordData {
    A(u8, u8, u8, u8),
    Ns(String),
    Cname(String),
    Mx(u16, String),
    Txt(Vec<Vec<u8>>),
    Other,
}

/// One DNS resource record: fully-qualified name, type, time-to-live in
/// seconds, and the type-tagged payload.
pub struct ResourceRecord {
    pub name: String,
    pub rtype: RecordType,
    pub ttl: u32,
    pub data: RecordData,
}

/// Two records belong to the same group exactly when they agree on the
/// (type, name) key; time-to-live and payload play no part.
pub open spec fn same_key(a: ResourceRecord, b: ResourceRecord) -> bool {
    a.rtype == b.rtype && a.name@ == b.name@
}

/// A maximal run of consecutive records sharing one (type, name) key.
/// Type, name and time-to-live are taken from the first record of the
/// run; later records' name and time-to-live are not consulted.
pub struct RecordGroup {
    pub rtype: RecordType,
    pub name: String,
    pub ttl: u32,
    pub records: Vec<ResourceRecord>,
}

impl RecordGroup {
    /// Well-formedness: the run is non-empty, the header fields come from
    /// its first record, and every record shares the first record's key.
    pub open spec fn wf(self) -> bool {
        &&& self.records@.len() > 0
        &&& self.rtype == self.records@[0].rtype
        &&& self.name@ == self.records@[0].name@
        &&& self.ttl == self.records@[0].ttl
        &&& forall|i: int|
            0 <= i < self.records@.len() ==> same_key(
                self.records@[0],
                #[trigger] self.records@[i],
            )
    }
}

} // verus!
