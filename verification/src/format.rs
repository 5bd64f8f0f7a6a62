//! The value formatter: renders one record's type-tagged payload as the
//! literal content of an `rrdatas` entry, including the escaping of TXT
//! payloads into 255-character string segments.

use vstd::prelude::*;
use vstd::string::StringExecFns;

use crate::records::RecordData;
use crate::text::{dec_of, push_char, push_decimal};

verus! {

/// The escaped text contributed by the byte at zero-based position `i`
/// of a TXT chunk: every 255th position (other than the first) opens a
/// new string segment with an escaped quote pair, and a literal quote
/// byte is escaped.
pub open spec fn escaped_byte(b: u8, i: nat) -> Seq<char> {
    let brk = if i > 0 && i % 255 == 0 {
        seq!['\\', '"', '\\', '"']
    } else {
        Seq::<char>::empty()
    };
    let body = if b == 34 {
        seq!['\\', '"']
    } else {
        seq![b as char]
    };
    brk + body
}

/// The escaped text of a whole TXT chunk, byte by byte.
pub open spec fn escape_bytes(chunk: Seq<u8>) -> Seq<char>
    decreases chunk.len(),
{
    if chunk.len() == 0 {
        Seq::<char>::empty()
    } else {
        escape_bytes(chunk.drop_last()) + escaped_byte(chunk.last(), (chunk.len() - 1) as nat)
    }
}

/// A chunk that contains a space character keeps its own quoting: its
/// escaped text is wrapped in an escaped quote pair. A chunk without a
/// space is rendered bare.
pub open spec fn escape_chunk(chunk: Seq<u8>) -> Seq<char> {
    if chunk.contains(32u8) {
        seq!['\\', '"'] + escape_bytes(chunk) + seq!['\\', '"']
    } else {
        escape_bytes(chunk)
    }
}

/// All chunks of one TXT record, concatenated into the content of a
/// single outer pair of quotes.
pub open spec fn txt_literal(chunks: Seq<Seq<u8>>) -> Seq<char>
    decreases chunks.len(),
{
    if chunks.len() == 0 {
        Seq::<char>::empty()
    } else {
        txt_literal(chunks.drop_last()) + escape_chunk(chunks.last())
    }
}

/// Dotted-decimal rendering of an IPv4 address given as its octets.
pub open spec fn ipv4_literal(a: u8, b: u8, c: u8, d: u8) -> Seq<char> {
    dec_of(a as nat) + seq!['.'] + dec_of(b as nat) + seq!['.'] + dec_of(c as nat) + seq!['.']
        + dec_of(d as nat)
}

/// The literal content of the `rrdatas` entry for one payload, or
/// `None` for a payload shape the converter does not render.
pub open spec fn rrdata_literal_spec(data: RecordData) -> Option<Seq<char>> {
    match data {
        RecordData::A(a, b, c, d) => Some(ipv4_literal(a, b, c, d)),
        RecordData::Ns(n) => Some(n@),
        RecordData::Cname(n) => Some(n@),
        RecordData::Mx(pref, exch) => Some(dec_of(pref as nat) + seq![' '] + exch@),
        RecordData::Txt(chunks) => Some(txt_literal(chunks.deep_view())),
        RecordData::Other => None,
    }
}

/// Law: a TXT chunk containing a space character is rendered wrapped in
/// an escaped quote pair that a space-free chunk of otherwise identical
/// content lacks.
pub proof fn lemma_txt_space_wrapping(chunk: Seq<u8>)
    ensures
        chunk.contains(32u8) ==> escape_chunk(chunk) == seq!['\\', '"'] + escape_bytes(chunk)
            + seq!['\\', '"'],
        !chunk.contains(32u8) ==> escape_chunk(chunk) == escape_bytes(chunk),
{
}

fn contains_space(chunk: &Vec<u8>) -> (r: bool)
    ensures
        r == chunk@.contains(32u8),
{
    let mut i: usize = 0;
    while i < chunk.len()
        invariant
            i <= chunk@.len(),
            forall|j: int| 0 <= j < i ==> chunk@[j] != 32u8,
        decreases chunk@.len() - i,
    {
        if chunk[i] == 32 {
            proof {
                assert(chunk@[i as int] == 32u8);
            }
            return true;
        }
        i += 1;
    }
    false
}

/// Appends the escaped rendering of one TXT chunk to `out`.
fn push_escaped_chunk(out: &mut String, chunk: &Vec<u8>)
    ensures
        final(out)@ == old(out)@ + escape_chunk(chunk@),
{
    let has_space = contains_space(chunk);
    if has_space {
        push_char(out, '\\');
        push_char(out, '"');
    }
    let ghost start = out@;
    let mut i: usize = 0;
    while i < chunk.len()
        invariant
            i <= chunk@.len(),
            out@ == start + escape_bytes(chunk@.take(i as int)),
        decreases chunk@.len() - i,
    {
        if i > 0 && i % 255 == 0 {
            push_char(out, '\\');
            push_char(out, '"');
            push_char(out, '\\');
            push_char(out, '"');
        }
        let b = chunk[i];
        if b == 34 {
            push_char(out, '\\');
            push_char(out, '"');
        } else {
            push_char(out, b as char);
        }
        proof {
            assert(chunk@.take(i + 1).drop_last() =~= chunk@.take(i as int));
            assert(out@ =~= start + escape_bytes(chunk@.take(i + 1)));
        }
        i += 1;
    }
    proof {
        assert(chunk@.take(chunk@.len() as int) =~= chunk@);
    }
    if has_space {
        push_char(out, '\\');
        push_char(out, '"');
    }
    proof {
        assert(final(out)@ =~= old(out)@ + escape_chunk(chunk@));
    }
}

/// Renders one payload as the content of its `rrdatas` entry, or `None`
/// for a payload shape that contributes no entry.
pub fn rrdata_literal(data: &RecordData) -> (r: Option<String>)
    ensures
        match rrdata_literal_spec(*data) {
            Some(l) => r is Some && r->Some_0@ == l,
            None => r is None,
        },
{
    match data {
        RecordData::A(a, b, c, d) => {
            let mut s = String::new();
            push_decimal(&mut s, *a as u32);
            push_char(&mut s, '.');
            push_decimal(&mut s, *b as u32);
            push_char(&mut s, '.');
            push_decimal(&mut s, *c as u32);
            push_char(&mut s, '.');
            push_decimal(&mut s, *d as u32);
            proof {
                assert(s@ =~= ipv4_literal(*a, *b, *c, *d));
            }
            Some(s)
        },
        RecordData::Ns(n) => Some(n.clone()),
        RecordData::Cname(n) => Some(n.clone()),
        RecordData::Mx(pref, exch) => {
            let mut s = String::new();
            push_decimal(&mut s, *pref as u32);
            push_char(&mut s, ' ');
            s.append(exch.as_str());
            proof {
                assert(s@ =~= dec_of(*pref as nat) + seq![' '] + exch@);
            }
            Some(s)
        },
        RecordData::Txt(chunks) => {
            let mut s = String::new();
            let mut i: usize = 0;
            while i < chunks.len()
                invariant
                    i <= chunks@.len(),
                    s@ == txt_literal(chunks.deep_view().take(i as int)),
                decreases chunks@.len() - i,
            {
                push_escaped_chunk(&mut s, &chunks[i]);
                proof {
                    assert(chunks.deep_view().take(i + 1).drop_last() =~= chunks.deep_view().take(
                        i as int,
                    ));
                    assert(chunks.deep_view().take(i + 1).last() == chunks@[i as int]@);
                    assert(s@ =~= txt_literal(chunks.deep_view().take(i + 1)));
                }
                i += 1;
            }
            proof {
                assert(chunks.deep_view().take(chunks@.len() as int) =~= chunks.deep_view());
            }
            Some(s)
        },
        RecordData::Other => None,
    }
}

} // verus!
