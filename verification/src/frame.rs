//! The frames in which the chart socket sends its messages.

use crate::decimal::{decimal, decimal_reads_back, push_decimal};
use vstd::prelude::*;
use vstd::string::*;
use vstd::utf8::*;

verus! {

/// A payload in its frame: the mark, the payload's length in bytes, the mark, the payload.
pub open spec fn framed(payload: Seq<char>) -> Seq<char> {
    "~m~"@ + decimal(encode_utf8(payload).len()) + "~m~"@ + payload
}

/// Puts a payload into its frame.
pub fn frame(payload: &str) -> (r: String)
    ensures
        r@ == framed(payload@),
{
    let mut r = "~m~".to_owned();
    push_decimal(&mut r, payload.as_bytes().len() as u128);
    r.append("~m~");
    r.append(payload);
    r
}

/// Text is encoded part by part.
proof fn encoded_in_parts(a: Seq<char>, b: Seq<char>)
    ensures
        encode_utf8(a + b) == encode_utf8(a) + encode_utf8(b),
    decreases a.len(),
{
    if a.len() == 0 {
        assert(a + b =~= b);
        assert(encode_utf8(a) =~= Seq::<u8>::empty());
    } else {
        assert((a + b).drop_first() =~= a.drop_first() + b);
        encoded_in_parts(a.drop_first(), b);
    }
}

/// Behind the marks and the length stand the payload's bytes, as many as the length says,
/// whatever follows.
pub proof fn frame_counts_its_bytes(payload: Seq<char>, rest: Seq<char>)
    ensures
        ({
            let n = encode_utf8(payload).len();
            let header = encode_utf8("~m~"@ + decimal(n) + "~m~"@);
            let stream = encode_utf8(framed(payload) + rest);
            &&& stream.take(header.len() as int) == header
            &&& stream.skip(header.len() as int).take(n as int) == encode_utf8(payload)
        }),
{
    let n = encode_utf8(payload).len();
    let header = "~m~"@ + decimal(n) + "~m~"@;
    assert(framed(payload) + rest =~= header + (payload + rest));
    encoded_in_parts(header, payload + rest);
    encoded_in_parts(payload, rest);
    let h = encode_utf8(header);
    let stream = encode_utf8(framed(payload) + rest);
    assert(stream =~= h + (encode_utf8(payload) + encode_utf8(rest)));
    assert(stream.take(h.len() as int) =~= h);
    assert(stream.skip(h.len() as int).take(n as int) =~= encode_utf8(payload));
}

/// A longer text takes more bytes.
proof fn encoded_len_grows(s: Seq<char>, n: int)
    requires
        0 <= n < s.len(),
    ensures
        encode_utf8(s.take(n)).len() < encode_utf8(s).len(),
    decreases n,
{
    let rest = s.drop_first();
    assert(encode_utf8(s) == encode_scalar(s[0] as u32) + encode_utf8(rest));
    if n > 0 {
        let front = s.take(n);
        assert(front.drop_first() == rest.take(n - 1));
        assert(encode_utf8(front) == encode_scalar(s[0] as u32) + encode_utf8(rest.take(n - 1)));
        encoded_len_grows(rest, n - 1);
    }
}

/// The marks of two frames that start alike enclose the same length.
proof fn lengths_agree(a: nat, b: nat, x: Seq<char>, y: Seq<char>)
    requires
        "~m~"@ + decimal(a) + "~m~"@ + x == "~m~"@ + decimal(b) + "~m~"@ + y,
    ensures
        a == b,
        x == y,
{
    reveal_strlit("~m~");
    decimal_reads_back(a);
    decimal_reads_back(b);
    let m = "~m~"@;
    let s = m + decimal(a) + m + x;
    let t = m + decimal(b) + m + y;
    let i: int = 3int + decimal(a).len();
    let j: int = 3int + decimal(b).len();
    assert(s[i] == '~' && t[j] == '~');
    if i < j {
        assert(t[i] == decimal(b)[i - 3]);
    }
    if j < i {
        assert(s[j] == decimal(a)[j - 3]);
    }
    assert(decimal(a) =~= s.subrange(3, i));
    assert(decimal(b) =~= t.subrange(3, j));
    assert(x =~= s.skip(i + 3));
    assert(y =~= t.skip(j + 3));
}

/// Frames that follow one another in a stream can be told apart: where two streams that begin
/// with a frame are the same, so are the first payloads and all that follows them.
pub proof fn frames_are_self_delimiting(p: Seq<char>, q: Seq<char>, x: Seq<char>, y: Seq<char>)
    requires
        framed(p) + x == framed(q) + y,
    ensures
        p == q,
        x == y,
{
    let m = "~m~"@;
    let a = encode_utf8(p).len();
    let b = encode_utf8(q).len();
    assert(framed(p) + x =~= m + decimal(a) + m + (p + x));
    assert(framed(q) + y =~= m + decimal(b) + m + (q + y));
    lengths_agree(a, b, p + x, q + y);
    if p.len() < q.len() {
        assert(q.take(p.len() as int) =~= (q + y).take(p.len() as int));
        assert(p =~= (p + x).take(p.len() as int));
        encoded_len_grows(q, p.len() as int);
    } else if q.len() < p.len() {
        assert(p.take(q.len() as int) =~= (p + x).take(q.len() as int));
        assert(q =~= (q + y).take(q.len() as int));
        encoded_len_grows(p, q.len() as int);
    }
    assert(p =~= (p + x).take(p.len() as int));
    assert(q =~= (q + y).take(q.len() as int));
    assert(x =~= (p + x).skip(p.len() as int));
    assert(y =~= (q + y).skip(q.len() as int));
}

} // verus!
