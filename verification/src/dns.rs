//! Wildcard DNS answers for the captive portal: every query is answered
//! with one A record pointing at the soft-AP address.

use vstd::prelude::*;
use crate::text::{string_push, push_chars, chars_of};

verus! {

/// Length of the fixed DNS header.
pub const DNS_HEADER_LEN: usize = 12;

/// Largest query the simple responder answers.
pub const SIMPLE_DNS_MAX_QUERY: usize = 100;

/// Name for the characters `String::from_utf8_lossy` makes of bytes that
/// are not valid UTF-8 (each invalid sequence replaced by U+FFFD).
pub uninterp spec fn lossy_of_invalid(bytes: Seq<u8>) -> Seq<char>;

/// The characters `String::from_utf8_lossy` makes of some bytes: their
/// decoding when they are valid UTF-8.
pub open spec fn utf8_lossy(bytes: Seq<u8>) -> Seq<char> {
    if vstd::utf8::valid_utf8(bytes) {
        vstd::utf8::decode_utf8(bytes)
    } else {
        lossy_of_invalid(bytes)
    }
}

/// std's `String::from_utf8_lossy`: the text of the bytes, with each invalid
/// sequence replaced by U+FFFD; valid UTF-8 decodes unchanged.
#[verifier::external_body]
pub(crate) fn lossy_string(bytes: &[u8]) -> (s: String)
    ensures
        vstd::utf8::valid_utf8(bytes@) ==> s@ == vstd::utf8::decode_utf8(bytes@),
        !vstd::utf8::valid_utf8(bytes@) ==> s@ == lossy_of_invalid(bytes@),
{
    String::from_utf8_lossy(bytes).into_owned()
}

/// Offset just past the question section when the name starts at `pos`:
/// labels are skipped by their length byte, and the terminating zero is
/// followed by the 2-byte type and 2-byte class. Running off the end of the
/// packet stops at the first offset at or past its end.
pub open spec fn question_end(q: Seq<u8>, pos: int) -> int
    decreases (if pos >= q.len() { 0 } else { q.len() - pos }),
{
    if pos < 0 || pos >= q.len() {
        pos
    } else if q[pos] == 0 {
        pos + 5
    } else {
        question_end(q, pos + q[pos] as int + 1)
    }
}

/// Response header: the query's id and question count, flags `0x8180`
/// (response, recursion desired and available, no error) and one answer.
pub open spec fn response_header(q: Seq<u8>) -> Seq<u8> {
    seq![q[0], q[1], 0x81u8, 0x80u8, q[4], q[5], 0x00u8, 0x01u8, 0x00u8, 0x00u8, 0x00u8, 0x00u8]
}

/// The answer record: a pointer to the queried name, type A, class IN,
/// TTL 60 s, and the four address octets.
pub open spec fn answer_record(ip: [u8; 4]) -> Seq<u8> {
    seq![0xC0u8, 0x0Cu8, 0x00u8, 0x01u8, 0x00u8, 0x01u8, 0x00u8, 0x00u8, 0x00u8, 0x3Cu8, 0x00u8, 0x04u8]
        + ip@
}

/// The full response to a query, or `None` when the query is shorter than
/// a header or its question runs past the end of the packet.
pub open spec fn dns_response(q: Seq<u8>, ip: [u8; 4]) -> Option<Seq<u8>> {
    if q.len() < 12 {
        None
    } else {
        let e = question_end(q, 12);
        if e > q.len() {
            None
        } else {
            Some(response_header(q) + q.subrange(12, e) + answer_record(ip))
        }
    }
}

/// Appends `src[from..to]` to `v`.
fn push_range(v: &mut Vec<u8>, src: &[u8], from: usize, to: usize)
    requires
        from <= to <= src@.len(),
    ensures
        final(v)@ == old(v)@ + src@.subrange(from as int, to as int),
{
    let mut i = from;
    while i < to
        invariant
            from <= i <= to <= src@.len(),
            v@ == old(v)@ + src@.subrange(from as int, i as int),
        decreases to - i,
    {
        v.push(src[i]);
        assert(src@.subrange(from as int, i as int).push(src@[i as int]) =~= src@.subrange(from as int, i + 1));
        i = i + 1;
    }
}

/// Builds the answer to a DNS query: the query's header turned into a
/// response with one answer, its question section copied, and an A record
/// pointing at `ip`. `None` for a query too short to hold a header or whose
/// question section runs past the end of the packet.
pub fn create_dns_response(query: &[u8], ip: [u8; 4]) -> (r: Option<Vec<u8>>)
    ensures
        r matches Some(v) ==> dns_response(query@, ip) == Some(v@),
        r is None ==> dns_response(query@, ip) is None,
{
    let len = query.len();
    if len < DNS_HEADER_LEN {
        return None;
    }
    let mut response: Vec<u8> = Vec::new();
    response.push(query[0]);
    response.push(query[1]);
    response.push(0x81);
    response.push(0x80);
    response.push(query[4]);
    response.push(query[5]);
    response.push(0x00);
    response.push(0x01);
    response.push(0x00);
    response.push(0x00);
    response.push(0x00);
    response.push(0x00);
    assert(response@ =~= response_header(query@));

    let question_start: usize = DNS_HEADER_LEN;
    let mut question_end_pos: usize = question_start;
    while question_end_pos < len
        invariant_except_break
            12 <= question_end_pos <= len,
            len == query@.len(),
            question_end(query@, 12) == question_end(query@, question_end_pos as int),
        ensures
            12 <= question_end_pos <= len,
            question_end(query@, 12) == question_end_pos,
        decreases len - question_end_pos,
    {
        let label_len = query[question_end_pos];
        if label_len == 0 {
            if len - question_end_pos < 5 {
                return None;
            }
            question_end_pos = question_end_pos + 5;
            break;
        }
        if (label_len as usize) + 1 > len - question_end_pos {
            assert(question_end(query@, question_end_pos + label_len + 1) == question_end_pos + label_len + 1);
            return None;
        }
        question_end_pos = question_end_pos + (label_len as usize) + 1;
    }

    push_range(&mut response, query, question_start, question_end_pos);

    response.push(0xC0);
    response.push(0x0C);
    response.push(0x00);
    response.push(0x01);
    response.push(0x00);
    response.push(0x01);
    response.push(0x00);
    response.push(0x00);
    response.push(0x00);
    response.push(0x3C);
    response.push(0x00);
    response.push(0x04);
    response.push(ip[0]);
    response.push(ip[1]);
    response.push(ip[2]);
    response.push(ip[3]);
    assert(response@ =~= response_header(query@) + query@.subrange(12, question_end_pos as int) + answer_record(ip));
    Some(response)
}

/// Walks the labels of the question name starting at `pos`, appending each
/// label's text to `acc` with `.` between labels. `None` when a label runs
/// past the end of the packet.
pub open spec fn domain_walk(q: Seq<u8>, pos: int, acc: Seq<char>) -> Option<Seq<char>>
    decreases q.len() - pos,
{
    if pos < 0 || pos >= q.len() {
        Some(acc)
    } else if q[pos] == 0 {
        Some(acc)
    } else if pos + 1 + q[pos] > q.len() {
        None
    } else {
        let sep = if acc.len() == 0 { acc } else { acc.push('.') };
        domain_walk(q, pos + 1 + q[pos], sep + utf8_lossy(q.subrange(pos + 1, pos + 1 + q[pos])))
    }
}

/// The dotted question name of a query, `None` when the packet is too short
/// to hold one, a label is truncated, or the name is empty.
pub open spec fn domain_name(q: Seq<u8>) -> Option<Seq<char>> {
    if q.len() < 13 {
        None
    } else {
        match domain_walk(q, 12, Seq::empty()) {
            Some(d) => if d.len() == 0 { None } else { Some(d) },
            None => None,
        }
    }
}

/// The queried domain name of a DNS packet, labels joined with `.`.
pub fn extract_domain_name(query: &[u8]) -> (r: Option<String>)
    ensures
        r matches Some(s) ==> domain_name(query@) == Some(s@),
        r is None ==> domain_name(query@) is None,
{
    let len = query.len();
    if len < 13 {
        return None;
    }
    let mut domain = String::new();
    let mut pos: usize = 12;
    while pos < len
        invariant_except_break
            12 <= pos <= len,
            len == query@.len(),
            domain_walk(query@, 12, Seq::empty()) == domain_walk(query@, pos as int, domain@),
        ensures
            domain_walk(query@, 12, Seq::empty()) == Some(domain@),
        decreases len - pos,
    {
        let label_len = query[pos] as usize;
        if label_len == 0 {
            break;
        }
        if label_len + 1 > len - pos {
            return None;
        }
        let ghost before = domain@;
        if !domain.as_str().is_empty() {
            string_push(&mut domain, '.');
        }
        let label = lossy_string(&query[pos + 1..pos + 1 + label_len]);
        let label_chars = chars_of(label.as_str());
        push_chars(&mut domain, label_chars.as_slice());
        pos = pos + label_len + 1;
    }
    if domain.as_str().is_empty() {
        None
    } else {
        Some(domain)
    }
}

/// The answer section the simple responder appends: name pointer, type A,
/// class IN, TTL 10 s, and the address.
pub open spec fn simple_footer(ip: [u8; 4]) -> Seq<u8> {
    seq![0xc0u8, 0x0cu8, 0x00u8, 0x01u8, 0x00u8, 0x01u8, 0x00u8, 0x00u8, 0x00u8, 0x0au8, 0x00u8, 0x04u8]
        + ip@
}

/// Answer section appended by the simple responder for address `ip`.
pub fn simple_dns_footer(ip: [u8; 4]) -> (f: [u8; 16])
    ensures
        f@ == simple_footer(ip),
{
    let f: [u8; 16] = [
        0xc0, 0x0c, 0x00, 0x01, 0x00, 0x01, 0x00, 0x00, 0x00, 0x0a, 0x00, 0x04,
        ip[0], ip[1], ip[2], ip[3],
    ];
    assert(f@ =~= simple_footer(ip));
    f
}

/// Byte `i` of the simple reply to query `q`: the query with the QR and RA
/// bits set and the answer count set to one.
pub open spec fn simple_reply_byte(q: Seq<u8>, i: int) -> u8 {
    if i == 2 {
        q[2] | 0x80
    } else if i == 3 {
        q[3] | 0x80
    } else if i == 7 {
        1u8
    } else {
        q[i]
    }
}

/// The simple responder's reply: the rewritten query followed by the footer;
/// `None` (the query is dropped) when it is longer than 100 bytes.
pub open spec fn simple_reply(q: Seq<u8>, footer: Seq<u8>) -> Option<Seq<u8>> {
    if q.len() > 100 {
        None
    } else {
        Some(Seq::new(q.len(), |i: int| simple_reply_byte(q, i)) + footer)
    }
}

/// Turns a received query into the reply the simple responder sends back:
/// sets the response and recursion-available bits, sets the answer count to
/// one (only the header bytes the query actually holds are rewritten) and
/// appends `footer`. Queries over 100 bytes get no reply.
pub fn simple_dns_reply(query: &[u8], footer: &[u8; 16]) -> (r: Option<Vec<u8>>)
    ensures
        r matches Some(v) ==> simple_reply(query@, footer@) == Some(v@),
        r is None ==> simple_reply(query@, footer@) is None,
{
    let len = query.len();
    if len > SIMPLE_DNS_MAX_QUERY {
        return None;
    }
    let mut out: Vec<u8> = Vec::new();
    let mut i: usize = 0;
    while i < len
        invariant
            i <= len,
            len == query@.len(),
            out@ =~= Seq::new(i as nat, |k: int| simple_reply_byte(query@, k)),
        decreases len - i,
    {
        let b = if i == 2 {
            query[2] | 0x80
        } else if i == 3 {
            query[3] | 0x80
        } else if i == 7 {
            1u8
        } else {
            query[i]
        };
        out.push(b);
        i = i + 1;
    }
    let mut k: usize = 0;
    while k < 16
        invariant
            k <= 16,
            out@ =~= Seq::new(len as nat, |j: int| simple_reply_byte(query@, j)) + footer@.take(k as int),
        decreases 16 - k,
    {
        out.push(footer[k]);
        k = k + 1;
    }
    assert(footer@.take(16) =~= footer@);
    Some(out)
}

/// The question-name encoding of labels: each label's UTF-8 bytes after
/// its length byte.
pub open spec fn encode_labels(labels: Seq<Seq<char>>) -> Seq<u8>
    decreases labels.len(),
{
    if labels.len() == 0 {
        Seq::empty()
    } else {
        seq![vstd::utf8::encode_utf8(labels[0]).len() as u8] + vstd::utf8::encode_utf8(labels[0])
            + encode_labels(labels.drop_first())
    }
}

/// `acc` followed by the labels, each after a `.` unless the text so far is
/// empty.
pub open spec fn join_labels(acc: Seq<char>, labels: Seq<Seq<char>>) -> Seq<char>
    decreases labels.len(),
{
    if labels.len() == 0 {
        acc
    } else {
        join_labels((if acc.len() == 0 { acc } else { acc.push('.') }) + labels[0], labels.drop_first())
    }
}

/// Whether each label is a non-empty text of at most 63 UTF-8 bytes.
pub open spec fn labels_ok(labels: Seq<Seq<char>>) -> bool {
    forall|i: int| 0 <= i < labels.len() ==> 1 <= #[trigger] vstd::utf8::encode_utf8(labels[i]).len() <= 63
}

proof fn lemma_walk_labels(q: Seq<u8>, pos: int, acc: Seq<char>, labels: Seq<Seq<char>>)
    requires
        labels_ok(labels),
        0 <= pos,
        pos + encode_labels(labels).len() < q.len(),
        q.subrange(pos, pos + encode_labels(labels).len()) == encode_labels(labels),
        q[pos + encode_labels(labels).len()] == 0,
    ensures
        domain_walk(q, pos, acc) == Some(join_labels(acc, labels)),
    decreases labels.len(),
{
    broadcast use vstd::utf8::encode_utf8_valid_utf8, vstd::utf8::encode_utf8_decode_utf8;
    if labels.len() > 0 {
        let e = vstd::utf8::encode_utf8(labels[0]);
        let n: int = e.len() as int;
        let rest = labels.drop_first();
        let er = encode_labels(rest);
        let all = encode_labels(labels);
        assert(all == seq![n as u8] + e + er);
        assert(labels_ok(rest)) by {
            assert forall|i: int| 0 <= i < rest.len() implies 1 <= #[trigger] vstd::utf8::encode_utf8(rest[i]).len() <= 63 by {
                assert(rest[i] == labels[i + 1]);
            }
        }
        assert(1 <= vstd::utf8::encode_utf8(labels[0]).len() <= 63);
        assert(q[pos] == all[0]);
        assert(q.subrange(pos + 1, pos + 1 + n) =~= e) by {
            assert forall|k: int| 0 <= k < n implies q.subrange(pos + 1, pos + 1 + n)[k] == e[k] by {
                assert(q[pos + 1 + k] == all[1 + k]);
            }
        }
        assert(q.subrange(pos + 1 + n, pos + 1 + n + er.len()) =~= er) by {
            assert forall|k: int| 0 <= k < er.len() implies q.subrange(pos + 1 + n, pos + 1 + n + er.len())[k] == er[k] by {
                assert(q[pos + 1 + n + k] == all[1 + n + k]);
            }
        }
        let sep = if acc.len() == 0 { acc } else { acc.push('.') };
        assert(utf8_lossy(e) == labels[0]);
        lemma_walk_labels(q, pos + 1 + n, sep + labels[0], rest);
    }
}

/// Law: a query whose question name is a list of labels (each a non-empty
/// text of at most 63 UTF-8 bytes) gives those labels joined with `.`.
pub proof fn law_domain_of_labels(header: Seq<u8>, labels: Seq<Seq<char>>, tail: Seq<u8>)
    requires
        header.len() == 12,
        labels.len() >= 1,
        labels_ok(labels),
    ensures
        domain_name(header + encode_labels(labels) + seq![0u8] + tail) == Some(join_labels(Seq::empty(), labels)),
{
    let q = header + encode_labels(labels) + seq![0u8] + tail;
    let n: int = encode_labels(labels).len() as int;
    assert(q.subrange(12, 12 + n) =~= encode_labels(labels));
    assert(q[12 + n] == 0);
    lemma_walk_labels(q, 12, Seq::empty(), labels);
    assert(vstd::utf8::encode_utf8(labels[0]).len() >= 1);
    lemma_join_nonempty(Seq::empty(), labels);
}

proof fn lemma_join_nonempty(acc: Seq<char>, labels: Seq<Seq<char>>)
    requires
        labels_ok(labels),
        labels.len() >= 1,
    ensures
        join_labels(acc, labels).len() > 0,
    decreases labels.len(),
{
    broadcast use vstd::utf8::encode_utf8_decode_utf8;
    let rest = labels.drop_first();
    assert(1 <= vstd::utf8::encode_utf8(labels[0]).len());
    assert(labels[0].len() > 0) by {
        if labels[0].len() == 0 {
            assert(labels[0] =~= Seq::<char>::empty());
            assert(vstd::utf8::encode_utf8(Seq::<char>::empty()).len() == 0);
        }
    }
    let next = (if acc.len() == 0 { acc } else { acc.push('.') }) + labels[0];
    if rest.len() >= 1 {
        assert(labels_ok(rest)) by {
            assert forall|i: int| 0 <= i < rest.len() implies 1 <= #[trigger] vstd::utf8::encode_utf8(rest[i]).len() <= 63 by {
                assert(rest[i] == labels[i + 1]);
            }
        }
        lemma_join_nonempty(next, rest);
    } else {
        assert(join_labels(next, rest) == next);
    }
}

} // verus!
