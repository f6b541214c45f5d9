//! Session timestamps: how they are cut from the clock's ISO 8601 text, and
//! how the history shows them.
use vstd::prelude::*;
use vstd::utf8::encode_utf8;

verus! {

/// The timestamp used when the clock's text cannot be had.
pub open spec fn fallback_timestamp() -> Seq<char> {
    "1970-01-01T00:00:00"@
}

/// Whether `s` can be cut after its first `n` bytes.
pub open spec fn cuttable(s: Seq<char>, n: int) -> bool {
    vstd::utf8::is_char_boundary(encode_utf8(s), n)
}

/// The encoding of two strings one after the other.
pub proof fn lemma_encode_concat(a: Seq<char>, b: Seq<char>)
    ensures
        encode_utf8(a + b) == encode_utf8(a) + encode_utf8(b),
    decreases a.len(),
{
    if a.len() > 0 {
        assert((a + b).drop_first() == a.drop_first() + b);
        lemma_encode_concat(a.drop_first(), b);
    } else {
        assert(a + b == b);
    }
}

/// The timestamp of a session: the first 19 bytes ("YYYY-MM-DDThh:mm:ss") of
/// the clock's ISO 8601 text, or [`fallback_timestamp`] when there is none.
pub fn timestamp_prefix(formatted: Option<String>) -> (ts: String)
    requires
        formatted matches Some(s) ==> cuttable(s@, 19),
    ensures
        formatted is None ==> ts@ == fallback_timestamp(),
        formatted matches Some(s) ==> encode_utf8(ts@) == encode_utf8(s@).take(19),
{
    match formatted {
        Some(s) => {
            let (head, _) = s.as_str().split_at(19);
            head.to_owned()
        },
        None => "1970-01-01T00:00:00".to_owned(),
    }
}

/// The abbreviated names of the months.
pub open spec fn month_name(m: int) -> Seq<char> {
    if m == 1 {
        "Jan"@
    } else if m == 2 {
        "Feb"@
    } else if m == 3 {
        "Mar"@
    } else if m == 4 {
        "Apr"@
    } else if m == 5 {
        "May"@
    } else if m == 6 {
        "Jun"@
    } else if m == 7 {
        "Jul"@
    } else if m == 8 {
        "Aug"@
    } else if m == 9 {
        "Sep"@
    } else if m == 10 {
        "Oct"@
    } else if m == 11 {
        "Nov"@
    } else if m == 12 {
        "Dec"@
    } else {
        "???"@
    }
}

/// Whether a byte is an ASCII digit.
pub open spec fn is_digit(b: u8) -> bool {
    48 <= b <= 57
}

/// The month number in the two bytes of a timestamp's month field, read as
/// an unsigned decimal number (digits, or `+` and a digit); 1 when they are
/// not one.
pub open spec fn month_number(b0: u8, b1: u8) -> int {
    if is_digit(b0) && is_digit(b1) {
        (b0 - 48) * 10 + (b1 - 48)
    } else if b0 == 43 && is_digit(b1) {
        b1 - 48
    } else {
        1
    }
}

/// Whether the fields of a timestamp at bytes 5..7, 8..10 and 11..16 can be
/// cut out of `s`.
pub open spec fn fields_cuttable(s: Seq<char>) -> bool {
    &&& cuttable(s, 5)
    &&& cuttable(s, 7)
    &&& cuttable(s, 8)
    &&& cuttable(s, 10)
    &&& cuttable(s, 11)
    &&& cuttable(s, 16)
}

/// How the history shows a timestamp "YYYY-MM-DDThh:mm:ss": as
/// "Mon DD  hh:mm", in bytes; a text shorter than 16 bytes is shown as it is.
pub open spec fn friendly_bytes(b: Seq<u8>) -> Seq<u8> {
    if b.len() >= 16 {
        encode_utf8(month_name(month_number(b[5], b[6]))) + seq![32u8] + b.subrange(8, 10) + seq![
            32u8,
            32u8,
        ] + b.subrange(11, 16)
    } else {
        b
    }
}

fn month_name_of(m: u32) -> (name: &'static str)
    ensures
        name@ == month_name(m as int),
{
    match m {
        1 => "Jan",
        2 => "Feb",
        3 => "Mar",
        4 => "Apr",
        5 => "May",
        6 => "Jun",
        7 => "Jul",
        8 => "Aug",
        9 => "Sep",
        10 => "Oct",
        11 => "Nov",
        12 => "Dec",
        _ => "???",
    }
}

/// A boundary after `from` is a boundary of the bytes from `from` on.
proof fn lemma_cut_suffix(bytes: Seq<u8>, from: int, to: int)
    requires
        vstd::utf8::valid_utf8(bytes),
        0 <= from <= to,
        vstd::utf8::is_char_boundary(bytes, from),
        vstd::utf8::is_char_boundary(bytes, to),
    ensures
        to <= bytes.len(),
        vstd::utf8::is_char_boundary(bytes.subrange(from, bytes.len() as int), to - from),
{
    reveal_with_fuel(vstd::utf8::is_char_boundary, 1);
    let rest = bytes.subrange(from, bytes.len() as int);
    vstd::utf8::valid_utf8_split(bytes, from);
    if to < bytes.len() {
        vstd::utf8::is_char_boundary_iff_not_is_continuation_byte(bytes, to);
        vstd::utf8::is_char_boundary_iff_not_is_continuation_byte(rest, to - from);
        assert(rest[to - from] == bytes[to]);
    } else {
        reveal_with_fuel(vstd::utf8::is_char_boundary, 1);
        if to > bytes.len() {
            assert(false);
        }
        vstd::utf8::is_char_boundary_start_end_of_seq(rest);
    }
}

/// The encoding of a single space.
proof fn lemma_encode_spaces()
    ensures
        encode_utf8(" "@) == seq![32u8],
        encode_utf8("  "@) == seq![32u8, 32u8],
{
    reveal_strlit(" ");
    reveal_strlit("  ");
    assert((32u32 & 0x7F) as u8 == 32u8) by (bit_vector);
    assert(vstd::utf8::encode_scalar(32u32) == seq![32u8]);
    let one = " "@;
    let two = "  "@;
    assert(one.drop_first().len() == 0);
    assert(encode_utf8(one.drop_first()) == Seq::<u8>::empty());
    assert(encode_utf8(one) == seq![32u8]);
    assert(two.drop_first() == one);
    assert(encode_utf8(two) == seq![32u8] + seq![32u8]);
    assert(seq![32u8] + seq![32u8] == seq![32u8, 32u8]);
}

/// Cuts bytes `from..to` out of `s`.
fn field(s: &str, from: usize, to: usize) -> (f: &str)
    requires
        from <= to,
        cuttable(s@, from as int),
        cuttable(s@, to as int),
    ensures
        encode_utf8(f@) == encode_utf8(s@).subrange(from as int, to as int),
{
    let (_, rest) = s.split_at(from);
    proof {
        vstd::utf8::encode_utf8_valid_utf8(s@);
        lemma_cut_suffix(encode_utf8(s@), from as int, to as int);
    }
    let (f, _) = rest.split_at(to - from);
    proof {
        let b = encode_utf8(s@);
        assert(b.subrange(from as int, b.len() as int).subrange(0, to - from) == b.subrange(
            from as int,
            to as int,
        ));
    }
    f
}

/// Shows a session timestamp in the history (see [`friendly_bytes`]).
pub fn friendly_timestamp(ts: &str) -> (shown: String)
    requires
        encode_utf8(ts@).len() >= 16 ==> fields_cuttable(ts@),
    ensures
        encode_utf8(shown@) == friendly_bytes(encode_utf8(ts@)),
{
    let bytes = ts.as_bytes();
    if bytes.len() >= 16 {
        let b0 = bytes[5];
        let b1 = bytes[6];
        let mo: u32 = if 48 <= b0 && b0 <= 57 && 48 <= b1 && b1 <= 57 {
            ((b0 - 48) as u32) * 10 + ((b1 - 48) as u32)
        } else if b0 == 43 && 48 <= b1 && b1 <= 57 {
            (b1 - 48) as u32
        } else {
            1
        };
        let day = field(ts, 8, 10);
        let time = field(ts, 11, 16);
        let month = month_name_of(mo);
        let mut shown = month.to_owned();
        shown.append(" ");
        shown.append(day);
        shown.append("  ");
        shown.append(time);
        proof {
            lemma_encode_spaces();
            lemma_encode_concat(month@, " "@);
            lemma_encode_concat(month@ + " "@, day@);
            lemma_encode_concat(month@ + " "@ + day@, "  "@);
            lemma_encode_concat(month@ + " "@ + day@ + "  "@, time@);
            assert(mo == month_number(bytes@[5], bytes@[6]));
        }
        shown
    } else {
        ts.to_owned()
    }
}

} // verus!
