//! The wire representation of change events: one JSON text frame per event,
//! `{"Created":{...}}`, `{"Updated":{...}}` or `{"Deleted":id}`, with the
//! record's fields under their external camel-case names. The frame is
//! defined byte by byte, down to decimal digits and string escaping.

use vstd::prelude::*;
use vstd::seq_lib::lemma_concat_associative;
use vstd::string::StringSliceAdditionalSpecFns;

use crate::book::Book;
use crate::book::BookView;
use crate::events::DbAction;
use crate::events::DbActionView;

verus! {

/// The decimal digits of a nonnegative integer, most significant first.
pub open spec fn dec_digits(n: int) -> Seq<u8>
    recommends
        0 <= n,
    decreases n,
{
    if n < 10 {
        seq![(48 + n) as u8]
    } else {
        dec_digits(n / 10) + seq![(48 + n % 10) as u8]
    }
}

/// The decimal form of an integer: a minus sign for negative values, then
/// the digits of the magnitude.
pub open spec fn dec_int(n: int) -> Seq<u8> {
    if n < 0 {
        seq![45u8] + dec_digits(-n)
    } else {
        dec_digits(n)
    }
}

/// The lower-case hex digit of a value below 16.
pub open spec fn hex_digit(d: u8) -> u8
    recommends
        d < 16,
{
    if d < 10 {
        (48 + d) as u8
    } else {
        (87 + d) as u8
    }
}

/// How one byte of string content appears inside a JSON string: quote and
/// backslash are escaped, the common control characters get their short
/// escapes, the rest of the control range is hex-escaped, and every other
/// byte stands for itself.
pub open spec fn esc_byte(b: u8) -> Seq<u8> {
    if b == 34 {
        seq![92u8, 34u8]
    } else if b == 92 {
        seq![92u8, 92u8]
    } else if b == 10 {
        seq![92u8, 110u8]
    } else if b == 13 {
        seq![92u8, 114u8]
    } else if b == 9 {
        seq![92u8, 116u8]
    } else if b < 32 {
        seq![92u8, 117u8, 48u8, 48u8, hex_digit(b / 16), hex_digit(b % 16)]
    } else {
        seq![b]
    }
}

/// A byte sequence with every byte escaped as [`esc_byte`].
pub open spec fn esc_bytes(s: Seq<u8>) -> Seq<u8>
    decreases s.len(),
{
    if s.len() == 0 {
        Seq::empty()
    } else {
        esc_bytes(s.drop_last()) + esc_byte(s.last())
    }
}

/// A JSON string: the escaped UTF-8 bytes of the characters, quoted.
pub open spec fn json_str(chars: Seq<char>) -> Seq<u8> {
    seq![34u8] + esc_bytes(vstd::utf8::encode_utf8(chars)) + seq![34u8]
}

/// An optional JSON string: `null` when absent.
pub open spec fn json_opt_str(chars: Option<Seq<char>>) -> Seq<u8> {
    match chars {
        Option::Some(s) => json_str(s),
        Option::None => "null".spec_bytes(),
    }
}

/// An optional JSON integer: `null` when absent.
pub open spec fn json_opt_int(n: Option<int>) -> Seq<u8> {
    match n {
        Option::Some(v) => dec_int(v),
        Option::None => "null".spec_bytes(),
    }
}

/// The JSON object a book is sent as.
pub open spec fn json_book(b: BookView) -> Seq<u8> {
    "{\"id\":".spec_bytes() + dec_int(b.id) + ",\"title\":".spec_bytes() + json_str(b.title)
        + ",\"author\":".spec_bytes() + json_str(b.author) + ",\"price\":".spec_bytes()
        + json_opt_str(b.price) + ",\"publishDate\":".spec_bytes() + json_opt_int(b.publish_date)
        + ",\"createdAt\":".spec_bytes() + dec_int(b.created_at) + ",\"updatedAt\":".spec_bytes()
        + dec_int(b.updated_at) + "}".spec_bytes()
}

/// The frame a change event is sent as.
pub open spec fn wire_of(e: DbActionView) -> Seq<u8> {
    match e {
        DbActionView::Created(b) => "{\"Created\":".spec_bytes() + json_book(b)
            + "}".spec_bytes(),
        DbActionView::Updated(b) => "{\"Updated\":".spec_bytes() + json_book(b)
            + "}".spec_bytes(),
        DbActionView::Deleted(id) => "{\"Deleted\":".spec_bytes() + dec_int(id)
            + "}".spec_bytes(),
    }
}

/// Appends the bytes of a literal.
fn push_literal(out: &mut Vec<u8>, text: &str)
    ensures
        final(out)@ == old(out)@ + text.spec_bytes(),
{
    let bytes = text.as_bytes();
    let mut i: usize = 0;
    while i < bytes.len()
        invariant
            i <= bytes@.len(),
            bytes@ == text.spec_bytes(),
            out@ == old(out)@ + bytes@.take(i as int),
        decreases bytes@.len() - i,
    {
        out.push(bytes[i]);
        proof {
            assert(bytes@.take(i + 1) =~= bytes@.take(i as int) + seq![bytes@[i as int]]);
            lemma_concat_associative(old(out)@, bytes@.take(i as int), seq![bytes@[i as int]]);
        }
        i = i + 1;
    }
    proof {
        assert(bytes@.take(bytes@.len() as int) =~= bytes@);
    }
}

/// Appends the decimal digits of a nonnegative value.
fn push_dec_u64(out: &mut Vec<u8>, n: u64)
    ensures
        final(out)@ == old(out)@ + dec_digits(n as int),
    decreases n,
{
    if n < 10 {
        out.push(48 + n as u8);
    } else {
        push_dec_u64(out, n / 10);
        out.push(48 + (n % 10) as u8);
        proof {
            lemma_concat_associative(
                old(out)@,
                dec_digits(n as int / 10),
                seq![(48 + n as int % 10) as u8],
            );
        }
    }
}

/// Appends the decimal form of a signed value.
fn push_dec_i64(out: &mut Vec<u8>, n: i64)
    ensures
        final(out)@ == old(out)@ + dec_int(n as int),
{
    if n >= 0 {
        push_dec_u64(out, n as u64);
    } else {
        out.push(45);
        let magnitude = (-(n as i128)) as u64;
        push_dec_u64(out, magnitude);
        proof {
            lemma_concat_associative(old(out)@, seq![45u8], dec_digits(-(n as int)));
        }
    }
}

/// Appends string content bytes, escaped as [`esc_bytes`].
fn push_escaped(out: &mut Vec<u8>, bytes: &[u8])
    ensures
        final(out)@ == old(out)@ + esc_bytes(bytes@),
{
    let mut i: usize = 0;
    while i < bytes.len()
        invariant
            i <= bytes@.len(),
            out@ == old(out)@ + esc_bytes(bytes@.take(i as int)),
        decreases bytes@.len() - i,
    {
        let b = bytes[i];
        if b == 34 {
            out.push(92);
            out.push(34);
        } else if b == 92 {
            out.push(92);
            out.push(92);
        } else if b == 10 {
            out.push(92);
            out.push(110);
        } else if b == 13 {
            out.push(92);
            out.push(114);
        } else if b == 9 {
            out.push(92);
            out.push(116);
        } else if b < 32 {
            out.push(92);
            out.push(117);
            out.push(48);
            out.push(48);
            let high = b / 16;
            let low = b % 16;
            out.push(if high < 10 { 48 + high } else { 87 + high });
            out.push(if low < 10 { 48 + low } else { 87 + low });
        } else {
            out.push(b);
        }
        proof {
            assert(bytes@.take(i + 1).drop_last() =~= bytes@.take(i as int));
            assert(bytes@.take(i + 1).last() == bytes@[i as int]);
            assert(esc_bytes(bytes@.take(i + 1)) == esc_bytes(bytes@.take(i as int)) + esc_byte(
                bytes@[i as int],
            ));
            assert(out@ =~= old(out)@ + (esc_bytes(bytes@.take(i as int)) + esc_byte(
                bytes@[i as int],
            )));
        }
        i = i + 1;
    }
    proof {
        assert(bytes@.take(bytes@.len() as int) =~= bytes@);
    }
}

/// Appends a string field as a quoted, escaped JSON string.
fn push_json_string(out: &mut Vec<u8>, text: &str)
    ensures
        final(out)@ == old(out)@ + json_str(text@),
{
    out.push(34);
    push_escaped(out, text.as_bytes());
    out.push(34);
    proof {
        lemma_concat_associative(
            old(out)@,
            seq![34u8],
            esc_bytes(vstd::utf8::encode_utf8(text@)),
        );
        lemma_concat_associative(
            old(out)@,
            seq![34u8] + esc_bytes(vstd::utf8::encode_utf8(text@)),
            seq![34u8],
        );
    }
}

/// Appends the JSON object of a book.
#[verifier::rlimit(80)]
fn push_book(out: &mut Vec<u8>, book: &Book)
    ensures
        final(out)@ == old(out)@ + json_book(book@),
{
    let ghost mut done: Seq<u8> = Seq::empty();
    proof {
        assert(out@ =~= old(out)@ + done);
    }
    push_literal(out, "{\"id\":");
    proof {
        assert(out@ =~= old(out)@ + (done + "{\"id\":".spec_bytes()));
        done = done + "{\"id\":".spec_bytes();
    }
    push_dec_i64(out, book.id as i64);
    proof {
        assert(out@ =~= old(out)@ + (done + dec_int(book@.id)));
        done = done + dec_int(book@.id);
    }
    push_literal(out, ",\"title\":");
    proof {
        assert(out@ =~= old(out)@ + (done + ",\"title\":".spec_bytes()));
        done = done + ",\"title\":".spec_bytes();
    }
    push_json_string(out, book.title.as_str());
    proof {
        assert(out@ =~= old(out)@ + (done + json_str(book@.title)));
        done = done + json_str(book@.title);
    }
    push_literal(out, ",\"author\":");
    proof {
        assert(out@ =~= old(out)@ + (done + ",\"author\":".spec_bytes()));
        done = done + ",\"author\":".spec_bytes();
    }
    push_json_string(out, book.author.as_str());
    proof {
        assert(out@ =~= old(out)@ + (done + json_str(book@.author)));
        done = done + json_str(book@.author);
    }
    push_literal(out, ",\"price\":");
    proof {
        assert(out@ =~= old(out)@ + (done + ",\"price\":".spec_bytes()));
        done = done + ",\"price\":".spec_bytes();
    }
    match &book.price {
        Some(price) => push_json_string(out, price.as_str()),
        None => push_literal(out, "null"),
    }
    proof {
        assert(out@ =~= old(out)@ + (done + json_opt_str(book@.price)));
        done = done + json_opt_str(book@.price);
    }
    push_literal(out, ",\"publishDate\":");
    proof {
        assert(out@ =~= old(out)@ + (done + ",\"publishDate\":".spec_bytes()));
        done = done + ",\"publishDate\":".spec_bytes();
    }
    match &book.publish_date {
        Some(stamp) => push_dec_i64(out, *stamp),
        None => push_literal(out, "null"),
    }
    proof {
        assert(out@ =~= old(out)@ + (done + json_opt_int(book@.publish_date)));
        done = done + json_opt_int(book@.publish_date);
    }
    push_literal(out, ",\"createdAt\":");
    proof {
        assert(out@ =~= old(out)@ + (done + ",\"createdAt\":".spec_bytes()));
        done = done + ",\"createdAt\":".spec_bytes();
    }
    push_dec_i64(out, book.created_at);
    proof {
        assert(out@ =~= old(out)@ + (done + dec_int(book@.created_at)));
        done = done + dec_int(book@.created_at);
    }
    push_literal(out, ",\"updatedAt\":");
    proof {
        assert(out@ =~= old(out)@ + (done + ",\"updatedAt\":".spec_bytes()));
        done = done + ",\"updatedAt\":".spec_bytes();
    }
    push_dec_i64(out, book.updated_at);
    proof {
        assert(out@ =~= old(out)@ + (done + dec_int(book@.updated_at)));
        done = done + dec_int(book@.updated_at);
    }
    push_literal(out, "}");
    proof {
        assert(out@ =~= old(out)@ + (done + "}".spec_bytes()));
        done = done + "}".spec_bytes();
        assert(done == json_book(book@));
    }
}

/// A byte-for-byte copy of a frame.
pub(crate) fn clone_frame(frame: &Vec<u8>) -> (copy: Vec<u8>)
    ensures
        copy@ == frame@,
{
    let copy = frame.clone();
    proof {
        assert forall|i: int| 0 <= i < frame@.len() implies copy@[i] == frame@[i] by {
            assert(cloned::<u8>(frame@[i], copy@[i]));
        }
        assert(copy@ =~= frame@);
    }
    copy
}

/// Serializes one change event to the frame every connected session is sent.
pub fn serialize_action(action: &DbAction) -> (frame: Vec<u8>)
    ensures
        frame@ == wire_of(action@),
{
    let mut out: Vec<u8> = Vec::new();
    match action {
        DbAction::Created(book) => {
            push_literal(&mut out, "{\"Created\":");
            push_book(&mut out, book);
            proof {
                assert(out@ =~= "{\"Created\":".spec_bytes() + json_book(book@));
            }
            push_literal(&mut out, "}");
            proof {
                assert(out@ =~= "{\"Created\":".spec_bytes() + json_book(book@)
                    + "}".spec_bytes());
            }
        },
        DbAction::Updated(book) => {
            push_literal(&mut out, "{\"Updated\":");
            push_book(&mut out, book);
            proof {
                assert(out@ =~= "{\"Updated\":".spec_bytes() + json_book(book@));
            }
            push_literal(&mut out, "}");
            proof {
                assert(out@ =~= "{\"Updated\":".spec_bytes() + json_book(book@)
                    + "}".spec_bytes());
            }
        },
        DbAction::Deleted(id) => {
            push_literal(&mut out, "{\"Deleted\":");
            push_dec_i64(&mut out, *id as i64);
            proof {
                assert(out@ =~= "{\"Deleted\":".spec_bytes() + dec_int(*id as int));
            }
            push_literal(&mut out, "}");
            proof {
                assert(out@ =~= "{\"Deleted\":".spec_bytes() + dec_int(*id as int)
                    + "}".spec_bytes());
            }
        },
    }
    out
}

} // verus!
