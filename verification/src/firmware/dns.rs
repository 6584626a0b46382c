//! Captive-portal DNS: every query is answered with the access point's own
//! address, so a client's connectivity check lands on the setup page.
//!
//! The worker that owns the UDP socket passes each datagram to
//! [`build_reply`] and sends back what it returns; [`qname`] names the queried
//! domain for the log.

use vstd::prelude::*;
use vstd::utf8::{decode_utf8, valid_utf8};

verus! {

/// The access point's IPv4 address, given out for every name.
pub open spec fn ap_ip() -> Seq<u8> {
    seq![192u8, 168, 71, 1]
}

/// What `String::from_utf8_lossy` makes of a byte string.
pub uninterp spec fn utf8_lossy(bytes: Seq<u8>) -> Seq<char>;

/// `String::from_utf8_lossy(bytes).into_owned()`: the text of `bytes` with
/// each invalid UTF-8 sequence replaced by U+FFFD. The contract names the
/// result and states the documented case that valid UTF-8 decodes as is.
#[verifier::external_body]
fn lossy_string(bytes: &[u8]) -> (s: String)
    ensures
        s@ == utf8_lossy(bytes@),
        valid_utf8(bytes@) ==> s@ == decode_utf8(bytes@),
{
    String::from_utf8_lossy(bytes).into_owned()
}

/// The labels of the name that starts at offset `i`, read until a zero
/// length byte or until a label would run past the end.
pub open spec fn name_labels(q: Seq<u8>, i: int) -> Seq<Seq<u8>>
    decreases q.len() - i,
{
    if i < 0 || i >= q.len() || q[i] == 0 || i + 1 + q[i] > q.len() {
        Seq::empty()
    } else {
        seq![q.subrange(i + 1, i + 1 + q[i])] + name_labels(q, i + 1 + q[i])
    }
}

/// Texts joined with dots.
pub open spec fn join_dots(parts: Seq<Seq<char>>) -> Seq<char>
    decreases parts.len(),
{
    if parts.len() == 0 {
        Seq::empty()
    } else if parts.len() == 1 {
        parts[0]
    } else {
        join_dots(parts.drop_last()) + seq!['.'] + parts.last()
    }
}

/// The queried domain name of a DNS message, for logging.
pub open spec fn qname_spec(q: Seq<u8>) -> Seq<char> {
    join_dots(name_labels(q, 12).map_values(|l: Seq<u8>| utf8_lossy(l)))
}

/// Every label is valid UTF-8.
pub open spec fn all_valid_utf8(labels: Seq<Seq<u8>>) -> bool {
    forall|k: int| 0 <= k < labels.len() ==> valid_utf8(#[trigger] labels[k])
}

/// Extracts the queried domain name (for logging). When every label is
/// valid UTF-8 the name is the labels' text joined with dots.
pub fn qname(q: &[u8]) -> (name: String)
    ensures
        name@ == qname_spec(q@),
        all_valid_utf8(name_labels(q@, 12)) ==> name@ == join_dots(
            name_labels(q@, 12).map_values(|l: Seq<u8>| decode_utf8(l)),
        ),
{
    let mut name = String::new();
    let ghost mut done: Seq<Seq<u8>> = Seq::empty();
    let mut i: usize = 12;
    assert(done + name_labels(q@, 12) =~= name_labels(q@, 12));
    while i < q.len()
        invariant
            i >= 12,
            (i > 12) == (done.len() > 0),
            done + name_labels(q@, i as int) == name_labels(q@, 12),
            name@ == join_dots(done.map_values(|l: Seq<u8>| utf8_lossy(l))),
            forall|k: int|
                0 <= k < done.len() && valid_utf8(#[trigger] done[k]) ==> utf8_lossy(done[k])
                    == decode_utf8(done[k]),
        ensures
            done + name_labels(q@, i as int) == name_labels(q@, 12),
            name@ == join_dots(done.map_values(|l: Seq<u8>| utf8_lossy(l))),
            forall|k: int|
                0 <= k < done.len() && valid_utf8(#[trigger] done[k]) ==> utf8_lossy(done[k])
                    == decode_utf8(done[k]),
            name_labels(q@, i as int) == Seq::<Seq<u8>>::empty(),
        decreases q@.len() - i,
    {
        let label = q[i] as usize;
        if label == 0 {
            break;
        }
        if label > q.len() - (i + 1) {
            break;
        }
        let ghost piece = q@.subrange(i + 1, i + 1 + label);
        let part = lossy_string(&q[i + 1..i + 1 + label]);
        proof {
            let old_parts = done.map_values(|l: Seq<u8>| utf8_lossy(l));
            let new_done = done.push(piece);
            let new_parts = new_done.map_values(|l: Seq<u8>| utf8_lossy(l));
            assert(new_parts =~= old_parts.push(utf8_lossy(piece)));
            assert(new_parts.drop_last() =~= old_parts);
            assert(done + name_labels(q@, i as int) =~= new_done + name_labels(
                q@,
                i + 1 + label,
            ));
        }
        if i > 12 {
            proof {
                reveal_strlit(".");
            }
            name.append(".");
        }
        name.append(part.as_str());
        proof {
            done = done.push(piece);
        }
        i = i + 1 + label;
    }
    assert(done =~= name_labels(q@, 12));
    proof {
        if all_valid_utf8(done) {
            assert(done.map_values(|l: Seq<u8>| utf8_lossy(l)) =~= done.map_values(
                |l: Seq<u8>| decode_utf8(l),
            ));
        }
    }
    name
}

/// Offset just past the name that starts at offset `i` (its terminating zero
/// byte included), or `None` when the name runs off the end of the message.
pub open spec fn name_end(q: Seq<u8>, i: int) -> Option<int>
    decreases q.len() - i,
{
    if i < 0 || i >= q.len() {
        None
    } else if q[i] == 0 {
        Some(i + 1)
    } else if i + 1 + q[i] >= q.len() {
        None
    } else {
        name_end(q, i + 1 + q[i])
    }
}

/// Fixed header of every reply after the transaction id: flags (response,
/// recursion available), one question, one answer, no other records.
pub open spec fn reply_header() -> Seq<u8> {
    seq![0x81u8, 0x80, 0x00, 0x01, 0x00, 0x01, 0x00, 0x00, 0x00, 0x00]
}

/// The answer record: a pointer to the name at offset 12, type A, class IN,
/// TTL 60 s, four bytes of address.
pub open spec fn answer_record() -> Seq<u8> {
    seq![0xC0u8, 0x0C, 0x00, 0x01, 0x00, 0x01, 0x00, 0x00, 0x00, 0x3C, 0x00, 0x04] + ap_ip()
}

/// The reply to a DNS query: `None` when the message is shorter than a
/// header, asks no question, or its first question is cut off; otherwise the
/// query's id, the fixed header, the first question echoed, and an A record
/// pointing that name at the access point.
pub open spec fn build_reply_spec(q: Seq<u8>) -> Option<Seq<u8>> {
    if q.len() < 12 {
        None
    } else if q[4] as int * 256 + q[5] as int == 0 {
        None
    } else {
        match name_end(q, 12) {
            None => None,
            Some(e) => {
                if e + 4 > q.len() {
                    None
                } else {
                    Some(q.subrange(0, 2) + reply_header() + q.subrange(12, e + 4) + answer_record())
                }
            },
        }
    }
}

/// Builds a minimal reply that points the (first) queried name at the AP.
pub fn build_reply(q: &[u8]) -> (r: Option<Vec<u8>>)
    ensures
        match r {
            Some(v) => build_reply_spec(q@) == Some(v@),
            None => build_reply_spec(q@) is None,
        },
{
    if q.len() < 12 {
        return None;
    }
    if q[4] == 0 && q[5] == 0 {
        return None;
    }
    let mut i: usize = 12;
    loop
        invariant_except_break
            name_end(q@, 12) == name_end(q@, i as int),
        invariant
            12 <= i <= q@.len(),
        ensures
            name_end(q@, 12) == Some(i as int),
        decreases q@.len() - i,
    {
        if i >= q.len() {
            return None;
        }
        let label = q[i] as usize;
        i = i + 1;
        if label == 0 {
            break;
        }
        if label >= q.len() - i {
            return None;
        }
        i = i + label;
    }
    assert(name_end(q@, 12) == Some(i as int));
    if i > q.len() - 4 {
        return None;
    }
    let end = i + 4;
    let mut r: Vec<u8> = Vec::new();
    r.push(q[0]);
    r.push(q[1]);
    r.push(0x81);
    r.push(0x80);
    r.push(0x00);
    r.push(0x01);
    r.push(0x00);
    r.push(0x01);
    r.push(0x00);
    r.push(0x00);
    r.push(0x00);
    r.push(0x00);
    let mut k: usize = 12;
    while k < end
        invariant
            12 <= k <= end,
            end <= q@.len(),
            r@ == q@.subrange(0, 2) + reply_header() + q@.subrange(12, k as int),
        decreases end - k,
    {
        r.push(q[k]);
        assert(q@.subrange(12, k + 1) =~= q@.subrange(12, k as int).push(q@[k as int]));
        k = k + 1;
    }
    let tail: [u8; 16] = [0xC0, 0x0C, 0x00, 0x01, 0x00, 0x01, 0x00, 0x00, 0x00, 0x3C, 0x00, 0x04, 192, 168, 71, 1];
    let mut t: usize = 0;
    while t < 16
        invariant
            t <= 16,
            12 <= end <= q@.len(),
            tail@ == answer_record(),
            r@ == q@.subrange(0, 2) + reply_header() + q@.subrange(12, end as int) + answer_record().take(t as int),
        decreases 16 - t,
    {
        r.push(tail[t]);
        assert(answer_record().take(t + 1) =~= answer_record().take(t as int).push(answer_record()[t as int]));
        t = t + 1;
    }
    assert(answer_record().take(16) =~= answer_record());
    Some(r)
}

proof fn lemma_labels_agree(q: Seq<u8>, r: Seq<u8>, i: int, e: int)
    requires
        name_end(q, i) == Some(e),
        e <= r.len(),
        forall|k: int| i <= k < e ==> r[k] == q[k],
    ensures
        name_labels(q, i) == name_labels(r, i),
        name_end(r, i) == Some(e),
    decreases q.len() - i,
{
    if q[i] != 0 {
        let j = i + 1 + q[i];
        lemma_name_end_after(q, j, e);
        lemma_labels_agree(q, r, j, e);
        assert(q.subrange(i + 1, j) =~= r.subrange(i + 1, j));
    }
}

proof fn lemma_name_end_after(q: Seq<u8>, j: int, e: int)
    requires
        name_end(q, j) == Some(e),
    ensures
        j < e,
    decreases q.len() - j,
{
    if q[j] != 0 {
        lemma_name_end_after(q, j + 1 + q[j], e);
    }
}

/// The reply names the queried domain: the question it carries is the
/// query's, so the name read from the reply is the name read from the query.
pub proof fn lemma_reply_echoes_question(q: Seq<u8>)
    requires
        build_reply_spec(q) is Some,
    ensures
        qname_spec(build_reply_spec(q)->0) == qname_spec(q),
        build_reply_spec(q)->0.subrange(0, 2) == q.subrange(0, 2),
        build_reply_spec(q)->0.len() == name_end(q, 12)->0 + 4 + 16,
{
    let r = build_reply_spec(q)->0;
    let e = name_end(q, 12)->0;
    assert(reply_header().len() == 10);
    assert(answer_record().len() == 16);
    lemma_name_end_after(q, 12, e);
    assert forall|k: int| 12 <= k < e implies r[k] == q[k] by {
        assert(r[k] == (q.subrange(0, 2) + reply_header() + q.subrange(12, e + 4))[k]);
    }
    lemma_labels_agree(q, r, 12, e);
    assert(r.subrange(0, 2) =~= q.subrange(0, 2));
}

/// Every reply points the asked name at the access point with an A record:
/// it keeps the query's id, flags itself a response with one question and one
/// answer, carries the query's question (type and class included) unchanged,
/// and ends with the answer `C0 0C | 00 01 (A) | 00 01 (IN) | TTL 60 | 00 04 |
/// 192.168.71.1`, whatever type the query asked for.
pub proof fn lemma_reply_points_at_ap(q: Seq<u8>)
    requires
        build_reply_spec(q) is Some,
    ensures
        ({
            let r = build_reply_spec(q)->0;
            &&& r.len() >= 12 + 5 + 16
            &&& r[0] == q[0] && r[1] == q[1]
            &&& r.subrange(2, 12) == seq![0x81u8, 0x80, 0x00, 0x01, 0x00, 0x01, 0x00, 0x00, 0x00, 0x00]
            &&& r.subrange(12, r.len() - 16) == q.subrange(12, r.len() - 16)
            &&& r.subrange(r.len() - 16, r.len() as int) == seq![
                0xC0u8, 0x0C, 0x00, 0x01, 0x00, 0x01, 0x00, 0x00, 0x00, 0x3C, 0x00, 0x04,
                192, 168, 71, 1,
            ]
        }),
{
    let r = build_reply_spec(q)->0;
    let e = name_end(q, 12)->0;
    lemma_name_end_after(q, 12, e);
    assert(r.subrange(2, 12) =~= reply_header());
    assert(r.subrange(12, r.len() - 16) =~= q.subrange(12, e + 4));
    assert(r.subrange(r.len() - 16, r.len() as int) =~= answer_record());
}

/// Messages shorter than a header, or asking no question, get no reply.
pub proof fn lemma_no_reply_without_question(q: Seq<u8>)
    requires
        q.len() < 12 || (q[4] == 0 && q[5] == 0),
    ensures
        build_reply_spec(q) is None,
{
}

/// Every query whose first question is complete gets a reply: with a header,
/// a non-zero question count, a name that ends inside the message at `e`,
/// and its type and class present, the reply is the header, the question
/// and the 16-byte answer.
pub proof fn lemma_reply_for_complete_question(q: Seq<u8>, e: int)
    requires
        q.len() >= 12,
        q[4] != 0 || q[5] != 0,
        name_end(q, 12) == Some(e),
        e + 4 <= q.len(),
    ensures
        build_reply_spec(q) is Some,
        build_reply_spec(q)->0.len() == e + 4 + 16,
{
    lemma_name_end_after(q, 12, e);
}

} // verus!
