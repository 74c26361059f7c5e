//! The `Cookie` header, written and read again: which cookies come back as
//! they were written.

use crate::dto::cookies::{
    cookie_of, cookies_of_pieces, cookies_with, lemma_split_on, lemma_trailing_whitespace_run,
    spec_parse_cookies, split_on, trimmed,
};
use crate::dto::keyed::{keys_distinct, lemma_key_index_none};
use crate::dto::to_wire::cookie_text;
use crate::http::message::{is_value_text, spec_is_value_octet};
use crate::http::parser::primitives::{
    lemma_whitespace_run, spec_is_linear_whitespace, EQUALS_SIGN, SEMICOLON, SPACE,
};
use crate::text::{ascii_text, is_ascii_bytes, lemma_ascii_bytes_decode};
use vstd::prelude::*;
use vstd::utf8::{
    encode_utf8, encode_utf8_decode_utf8, is_ascii_chars, is_ascii_chars_encode_utf8,
};

verus! {

/// A character that may stand in a cookie as it is: visible ASCII, a space
/// or a tab, but neither `;` nor `=`.
pub open spec fn is_cookie_char(c: char) -> bool {
    &&& (32 <= (c as u32) && (c as u32) < 127) || (c as u32) == 9
    &&& c as u32 != 59
    &&& c as u32 != 61
}

/// Whether the character is a space or a tab.
pub open spec fn is_blank(c: char) -> bool {
    c as u32 == 32 || c as u32 == 9
}

/// A cookie that one piece of a `Cookie` header can spell: its name and
/// its value hold nothing but what may stand in a cookie, and no space or tab
/// starts or ends its name.
pub open spec fn cookie_is_plain(cookie: (Seq<char>, Seq<char>)) -> bool {
    &&& forall|i: int| 0 <= i < cookie.0.len() ==> is_cookie_char(#[trigger] cookie.0[i])
    &&& forall|i: int| 0 <= i < cookie.1.len() ==> is_cookie_char(#[trigger] cookie.1[i])
    &&& cookie.0.len() > 0 ==> !is_blank(cookie.0[0]) && !is_blank(cookie.0.last())
}

/// Every cookie is one that a piece of a `Cookie` header can spell.
pub open spec fn cookies_are_plain(cookies: Seq<(Seq<char>, Seq<char>)>) -> bool {
    forall|i: int| 0 <= i < cookies.len() ==> cookie_is_plain(#[trigger] cookies[i])
}

/// The octets of the piece that spells a cookie: after a space, where
/// another piece stands before it, the name, `=`, and the value.
pub open spec fn piece_of(cookie: (Seq<char>, Seq<char>), follows: bool) -> Seq<u8> {
    (if follows {
        seq![SPACE]
    } else {
        Seq::<u8>::empty()
    }) + encode_utf8(cookie.0) + seq![EQUALS_SIGN] + encode_utf8(cookie.1)
}

/// The pieces that spell the cookies.
pub open spec fn pieces_of(cookies: Seq<(Seq<char>, Seq<char>)>) -> Seq<Seq<u8>> {
    Seq::new(cookies.len(), |i: int| piece_of(cookies[i], i > 0))
}

/// A character whose code is below 128 is an ASCII character.
pub proof fn lemma_char_below(c: char)
    requires
        (c as u32) < 128,
    ensures
        '\0' <= c <= '\u{7f}',
{
}

/// The octets of ASCII text are its characters, one octet each.
pub proof fn lemma_octets_of_ascii(text: Seq<char>)
    requires
        is_ascii_chars(text),
    ensures
        encode_utf8(text).len() == text.len(),
        forall|i: int| 0 <= i < text.len() ==> #[trigger] encode_utf8(text)[i] == text[i] as u8,
        is_ascii_bytes(encode_utf8(text)),
        ascii_text(encode_utf8(text)) == text,
{
    is_ascii_chars_encode_utf8(text);
    assert forall|i: int| 0 <= i < text.len() implies #[trigger] encode_utf8(text)[i] == text[i] as u8
        && encode_utf8(text)[i] <= 127 by {
        assert('\0' <= text[i] <= '\u{7f}');
    }
    lemma_ascii_bytes_decode(encode_utf8(text));
    encode_utf8_decode_utf8(text);
}

/// The octets of two ASCII texts, one after the other, are the octets of
/// the one and then those of the other.
pub proof fn lemma_octets_concat(a: Seq<char>, b: Seq<char>)
    requires
        is_ascii_chars(a),
        is_ascii_chars(b),
    ensures
        is_ascii_chars(a + b),
        encode_utf8(a + b) == encode_utf8(a) + encode_utf8(b),
{
    assert forall|i: int| 0 <= i < (a + b).len() implies '\0' <= #[trigger] (a + b)[i]
        <= '\u{7f}' by {
        if i < a.len() {
            assert((a + b)[i] == a[i]);
        } else {
            assert((a + b)[i] == b[i - a.len()]);
        }
    }
    lemma_octets_of_ascii(a);
    lemma_octets_of_ascii(b);
    lemma_octets_of_ascii(a + b);
    assert(encode_utf8(a + b) =~= encode_utf8(a) + encode_utf8(b));
}

/// Text that holds cookie characters only is ASCII, and its octets are
/// octets of a header value, none of them `;` or `=`.
pub proof fn lemma_cookie_part(text: Seq<char>)
    requires
        forall|i: int| 0 <= i < text.len() ==> is_cookie_char(#[trigger] text[i]),
    ensures
        is_ascii_chars(text),
        encode_utf8(text).len() == text.len(),
        forall|i: int|
            0 <= i < text.len() ==> {
                &&& (#[trigger] encode_utf8(text)[i]) == text[i] as u32
                &&& spec_is_value_octet(encode_utf8(text)[i])
                &&& encode_utf8(text)[i] != SEMICOLON
                &&& encode_utf8(text)[i] != EQUALS_SIGN
                &&& encode_utf8(text)[i] <= 127
            },
        ascii_text(encode_utf8(text)) == text,
{
    assert forall|i: int| 0 <= i < text.len() implies '\0' <= #[trigger] text[i] <= '\u{7f}' by {
        let c = text[i];
        assert(is_cookie_char(c));
        lemma_char_below(c);
    }
    lemma_octets_of_ascii(text);
    assert forall|i: int| 0 <= i < text.len() implies {
        &&& (#[trigger] encode_utf8(text)[i]) == text[i] as u32
        &&& spec_is_value_octet(encode_utf8(text)[i])
        &&& encode_utf8(text)[i] != SEMICOLON
        &&& encode_utf8(text)[i] != EQUALS_SIGN
        &&& encode_utf8(text)[i] <= 127
    } by {
        assert(is_cookie_char(text[i]));
        assert(encode_utf8(text)[i] == text[i] as u8);
    }
}

/// Octets without the separator, behind octets, go into the last piece.
pub proof fn lemma_split_append(s: Seq<u8>, t: Seq<u8>, sep: u8)
    requires
        forall|i: int| 0 <= i < t.len() ==> #[trigger] t[i] != sep,
    ensures
        split_on(s, sep).len() >= 1,
        split_on(s + t, sep) == split_on(s, sep).drop_last().push(split_on(s, sep).last() + t),
    decreases t.len(),
{
    lemma_split_on(s, sep);
    let pieces = split_on(s, sep);
    if t.len() == 0 {
        assert(s + t =~= s);
        assert(pieces.last() + t =~= pieces.last());
        assert(pieces.drop_last().push(pieces.last()) =~= pieces);
    } else {
        let fewer = t.drop_last();
        assert forall|i: int| 0 <= i < fewer.len() implies #[trigger] fewer[i] != sep by {
            assert(fewer[i] == t[i]);
        }
        lemma_split_append(s, fewer, sep);
        assert((s + t).drop_last() =~= s + fewer);
        assert((s + t).last() == t[t.len() - 1]);
        let before = split_on(s + fewer, sep);
        assert(before.last() == pieces.last() + fewer);
        assert((pieces.last() + fewer).push(t.last()) =~= pieces.last() + t);
        assert(before.update(before.len() - 1, before.last().push(t.last()))
            =~= pieces.drop_last().push(pieces.last() + t));
    }
}

/// Octets without the separator are one piece.
pub proof fn lemma_split_one(t: Seq<u8>, sep: u8)
    requires
        forall|i: int| 0 <= i < t.len() ==> #[trigger] t[i] != sep,
    ensures
        split_on(t, sep) == seq![t],
{
    let none = Seq::<u8>::empty();
    lemma_split_append(none, t, sep);
    assert(none + t =~= t);
    assert(split_on(none, sep) =~= seq![none]);
    assert(seq![none].drop_last().push(none + t) =~= seq![t]);
}

/// A separator and octets without it, behind octets, make one more piece.
pub proof fn lemma_split_next(s: Seq<u8>, t: Seq<u8>, sep: u8)
    requires
        forall|i: int| 0 <= i < t.len() ==> #[trigger] t[i] != sep,
    ensures
        split_on(s + seq![sep] + t, sep) == split_on(s, sep).push(t),
{
    let cut = s + seq![sep];
    assert(cut.drop_last() =~= s);
    assert(cut.last() == sep);
    let none = Seq::<u8>::empty();
    assert(split_on(cut, sep) == split_on(s, sep).push(none));
    lemma_split_append(cut, t, sep);
    assert(split_on(s, sep).push(none).drop_last() =~= split_on(s, sep));
    assert(none + t =~= t);
}

/// The octets of a piece, and that `;` is not among them.
pub proof fn lemma_piece(cookie: (Seq<char>, Seq<char>), follows: bool)
    requires
        cookie_is_plain(cookie),
    ensures
        forall|i: int|
            0 <= i < piece_of(cookie, follows).len() ==> (#[trigger] piece_of(cookie, follows)[i])
                != SEMICOLON && spec_is_value_octet(piece_of(cookie, follows)[i]),
        cookie_of(piece_of(cookie, follows)) == cookie,
{
    let name = encode_utf8(cookie.0);
    let value = encode_utf8(cookie.1);
    lemma_cookie_part(cookie.0);
    lemma_cookie_part(cookie.1);
    let lead = if follows {
        seq![SPACE]
    } else {
        Seq::<u8>::empty()
    };
    let piece = piece_of(cookie, follows);
    assert(piece == lead + name + seq![EQUALS_SIGN] + value);
    assert forall|i: int| 0 <= i < piece.len() implies (#[trigger] piece[i]) != SEMICOLON
        && spec_is_value_octet(piece[i]) by {
        if i < lead.len() {
            assert(piece[i] == SPACE);
        } else if i < lead.len() + name.len() {
            assert(piece[i] == name[i - lead.len()]);
        } else if i == lead.len() + name.len() {
            assert(piece[i] == EQUALS_SIGN);
        } else {
            assert(piece[i] == value[i - lead.len() - name.len() - 1]);
        }
    }
    // the two parts of the piece
    let head = lead + name;
    assert forall|i: int| 0 <= i < head.len() implies #[trigger] head[i] != EQUALS_SIGN by {
        if i < lead.len() {
            assert(head[i] == SPACE);
        } else {
            assert(head[i] == name[i - lead.len()]);
        }
    }
    lemma_split_one(head, EQUALS_SIGN);
    lemma_split_next(head, value, EQUALS_SIGN);
    assert(piece =~= head + seq![EQUALS_SIGN] + value);
    let parts = split_on(piece, EQUALS_SIGN);
    assert(parts == seq![head].push(value));
    assert(parts.len() == 2);
    assert(parts[0] == head);
    assert(parts[1] == value);
    // the name, trimmed
    let blanks = lead.len() as int;
    assert forall|j: int| 0 <= j < blanks implies spec_is_linear_whitespace(#[trigger] head[j]) by {
        assert(head[j] == SPACE);
    }
    if name.len() > 0 {
        assert(head[blanks] == name[0]);
        assert(name[0] == cookie.0[0] as u32);
        assert(!is_blank(cookie.0[0]));
    }
    lemma_whitespace_run(head, blanks);
    let tail = head.skip(blanks);
    assert(tail =~= name);
    if name.len() > 0 {
        assert(name[name.len() - 1] == cookie.0[cookie.0.len() - 1] as u32);
        assert(cookie.0.last() == cookie.0[cookie.0.len() - 1]);
        assert(!is_blank(cookie.0.last()));
    }
    lemma_trailing_whitespace_run(name, 0);
    assert(name.take(name.len() as int) =~= name);
    assert(trimmed(head) == name);
}

/// The text of the cookies is ASCII, and its pieces are the pieces of
/// the cookies.
pub proof fn lemma_cookie_text_pieces(cookies: Seq<(Seq<char>, Seq<char>)>)
    requires
        cookies_are_plain(cookies),
        cookies.len() > 0,
    ensures
        is_ascii_chars(cookie_text(cookies)),
        is_value_text(encode_utf8(cookie_text(cookies))),
        split_on(encode_utf8(cookie_text(cookies)), SEMICOLON) == pieces_of(cookies),
    decreases cookies.len(),
{
    reveal_strlit("; ");
    reveal_strlit("=");
    let equals = "="@;
    let between = "; "@;
    assert(equals =~= seq!['=']);
    assert(between =~= seq![';', ' ']);
    assert(is_ascii_chars(equals));
    assert(is_ascii_chars(between));
    lemma_octets_of_ascii(equals);
    lemma_octets_of_ascii(between);
    assert(encode_utf8(equals) =~= seq![EQUALS_SIGN]);
    assert(encode_utf8(between) =~= seq![SEMICOLON, SPACE]);
    let last = cookies[cookies.len() - 1];
    assert(cookies.last() == last);
    assert(cookie_is_plain(last));
    lemma_cookie_part(last.0);
    lemma_cookie_part(last.1);
    // the item of the last cookie
    let item = last.0 + equals + last.1;
    lemma_octets_concat(last.0, equals);
    lemma_octets_concat(last.0 + equals, last.1);
    assert(encode_utf8(item) == piece_of(last, false)) by {
        assert(Seq::<u8>::empty() + encode_utf8(last.0) =~= encode_utf8(last.0));
    }
    lemma_piece(last, false);
    lemma_piece(last, true);
    if cookies.len() == 1 {
        assert(cookie_text(cookies) == item);
        lemma_split_one(piece_of(last, false), SEMICOLON);
        assert(pieces_of(cookies) =~= seq![piece_of(last, false)]);
        assert(is_value_text(encode_utf8(item)));
    } else {
        let rest = cookies.drop_last();
        assert(cookies_are_plain(rest)) by {
            assert forall|i: int| 0 <= i < rest.len() implies cookie_is_plain(#[trigger] rest[i]) by {
                assert(rest[i] == cookies[i]);
            }
        }
        lemma_cookie_text_pieces(rest);
        let before = cookie_text(rest);
        assert(cookie_text(cookies) == before + between + last.0 + equals + last.1);
        lemma_octets_concat(before, between);
        lemma_octets_concat(before + between, last.0);
        lemma_octets_concat(before + between + last.0, equals);
        lemma_octets_concat(before + between + last.0 + equals, last.1);
        let octets = encode_utf8(cookie_text(cookies));
        assert(octets =~= encode_utf8(before) + seq![SEMICOLON] + piece_of(last, true));
        lemma_split_next(encode_utf8(before), piece_of(last, true), SEMICOLON);
        assert(pieces_of(cookies) =~= pieces_of(rest).push(piece_of(last, true))) by {
            assert forall|i: int| 0 <= i < rest.len() implies pieces_of(cookies)[i] == pieces_of(
                rest,
            )[i] by {
                assert(rest[i] == cookies[i]);
            }
        }
        assert forall|i: int| 0 <= i < octets.len() implies spec_is_value_octet(
            #[trigger] octets[i],
        ) by {
            let n = encode_utf8(before).len() as int;
            if i < n {
                assert(octets[i] == encode_utf8(before)[i]);
            } else if i == n {
                assert(octets[i] == SEMICOLON);
            } else {
                assert(octets[i] == piece_of(last, true)[i - n - 1]);
            }
        }
    }
}

/// The pieces of cookies with one value for each name spell the cookies.
pub proof fn lemma_pieces_spell(cookies: Seq<(Seq<char>, Seq<char>)>)
    requires
        cookies_are_plain(cookies),
        keys_distinct(cookies),
    ensures
        cookies_of_pieces(pieces_of(cookies)) == cookies,
    decreases cookies.len(),
{
    if cookies.len() == 0 {
        assert(pieces_of(cookies) =~= Seq::<Seq<u8>>::empty());
        assert(cookies =~= Seq::<(Seq<char>, Seq<char>)>::empty());
    } else {
        let rest = cookies.drop_last();
        let last = cookies[cookies.len() - 1];
        assert(cookies.last() == last);
        assert(cookie_is_plain(last));
        assert(cookies_are_plain(rest) && keys_distinct(rest)) by {
            assert forall|i: int| 0 <= i < rest.len() implies cookie_is_plain(#[trigger] rest[i]) by {
                assert(rest[i] == cookies[i]);
            }
            assert forall|i: int, j: int| 0 <= i < j < rest.len() implies (#[trigger] rest[i]).0 != (
            #[trigger] rest[j]).0 by {
                assert(rest[i] == cookies[i] && rest[j] == cookies[j]);
            }
        }
        lemma_pieces_spell(rest);
        let pieces = pieces_of(cookies);
        assert(pieces.drop_last() =~= pieces_of(rest)) by {
            assert forall|i: int| 0 <= i < rest.len() implies pieces.drop_last()[i] == pieces_of(
                rest,
            )[i] by {
                assert(rest[i] == cookies[i]);
            }
        }
        assert(pieces.last() == piece_of(last, cookies.len() - 1 > 0));
        lemma_piece(last, cookies.len() - 1 > 0);
        assert forall|j: int| 0 <= j < rest.len() implies (#[trigger] rest[j]).0 != last.0 by {
            assert(rest[j] == cookies[j]);
        }
        lemma_key_index_none(rest, last.0);
        assert(cookies_with(rest, last.0, last.1) =~= cookies);
    }
}

/// Plain cookies with one value for each name are read as they were
/// written, and what is written for them may stand in a header.
pub proof fn lemma_cookies_round_trip(cookies: Seq<(Seq<char>, Seq<char>)>)
    requires
        cookies_are_plain(cookies),
        keys_distinct(cookies),
        cookies.len() > 0,
    ensures
        is_value_text(encode_utf8(cookie_text(cookies))),
        spec_parse_cookies(encode_utf8(cookie_text(cookies))) == cookies,
{
    lemma_cookie_text_pieces(cookies);
    lemma_pieces_spell(cookies);
}

} // verus!
