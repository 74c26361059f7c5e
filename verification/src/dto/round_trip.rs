//! To the wire and back: which requests come back as they went.

use crate::dto::body::BodyView;
use crate::dto::cookie_text::{cookies_are_plain, lemma_cookies_round_trip};
use crate::dto::form::{form_pairs, form_text};
use crate::dto::multimap::{lemma_groups_of_keys, lemma_groups_round_trip, pairs_of, Groups};
use crate::dto::request::{request_view_wf, RequestView};
use crate::dto::to_wire::{cookie_text, joined, spec_into, target_text, wire_fields};
use crate::dto::wire::{header_pairs, spec_from, spec_says_form};
use crate::http::message::{
    first_value, has_name, header_name_text, headers_are_text, is_method_text, is_value_text,
    is_visible_text, lemma_first_value, origin_form, without_name, HEADER_CONTENT_TYPE,
    HEADER_COOKIE,
};
use crate::text::{ascii_text, is_ascii_bytes, lemma_ascii_bytes_decode};
use vstd::prelude::*;
use vstd::utf8::{encode_utf8, encode_utf8_decode_utf8, encode_utf8_valid_utf8, valid_utf8};

verus! {

/// The query of the target: the parameters parted by `&`, where the
/// request has a query.
pub open spec fn query_text(query_params: Option<Groups>) -> Option<Seq<char>> {
    match query_params {
        Some(groups) => Some(joined(pairs_of(groups), "&"@)),
        None => None,
    }
}

/// The header fields that pairs make where every name is a normalised
/// name: each value as its octets under its name.
pub open spec fn plain_fields(pairs: Seq<(Seq<char>, Seq<char>)>) -> Seq<(Seq<char>, Seq<u8>)> {
    Seq::new(pairs.len(), |i: int| (pairs[i].0, encode_utf8(pairs[i].1)))
}

/// Every name is one that `http` leaves as it is, and every value is
/// visible ASCII, spaces and tabs.
pub open spec fn pairs_are_plain(pairs: Seq<(Seq<char>, Seq<char>)>) -> bool {
    forall|i: int|
        0 <= i < pairs.len() ==> header_name_text(encode_utf8((#[trigger] pairs[i]).0)) == Some(
            pairs[i].0,
        ) && is_visible_text(encode_utf8(pairs[i].1))
}

/// Text whose octets are ASCII is the text that its octets spell.
pub proof fn lemma_text_of_octets(text: Seq<char>)
    requires
        is_ascii_bytes(encode_utf8(text)),
    ensures
        ascii_text(encode_utf8(text)) == text,
{
    lemma_ascii_bytes_decode(encode_utf8(text));
    encode_utf8_decode_utf8(text);
}

/// Plain pairs make header fields that say what the pairs say.
pub proof fn lemma_plain_fields(pairs: Seq<(Seq<char>, Seq<char>)>)
    requires
        pairs_are_plain(pairs),
    ensures
        wire_fields(pairs) == Some(plain_fields(pairs)),
        header_pairs(plain_fields(pairs)) == pairs,
        headers_are_text(plain_fields(pairs)),
    decreases pairs.len(),
{
    let fields = plain_fields(pairs);
    if pairs.len() > 0 {
        let rest = pairs.drop_last();
        assert(pairs_are_plain(rest)) by {
            assert forall|i: int| 0 <= i < rest.len() implies header_name_text(
                encode_utf8((#[trigger] rest[i]).0),
            ) == Some(rest[i].0) && is_visible_text(encode_utf8(rest[i].1)) by {
                assert(rest[i] == pairs[i]);
            }
        }
        lemma_plain_fields(rest);
        let last = pairs[pairs.len() - 1];
        assert(pairs.last() == last);
        assert(is_visible_text(encode_utf8(last.1)));
        assert(is_value_text(encode_utf8(last.1)));
        assert(plain_fields(rest).push((last.0, encode_utf8(last.1))) =~= fields);
    } else {
        assert(fields =~= Seq::<(Seq<char>, Seq<u8>)>::empty());
    }
    assert forall|i: int| 0 <= i < pairs.len() implies header_pairs(fields)[i] == pairs[i] by {
        assert(is_visible_text(encode_utf8(pairs[i].1)));
        assert(is_ascii_bytes(encode_utf8(pairs[i].1)));
        lemma_text_of_octets(pairs[i].1);
    }
    assert(header_pairs(fields) =~= pairs);
    assert forall|i: int| 0 <= i < fields.len() implies is_visible_text(
        (#[trigger] fields[i]).1,
    ) by {
        assert(is_visible_text(encode_utf8(pairs[i].1)));
    }
}

/// Fields that hold no field of a name stay as they are when the fields of
/// the name are taken out.
pub proof fn lemma_without_absent(fields: Seq<(Seq<char>, Seq<u8>)>, name: Seq<char>)
    requires
        !has_name(fields, name),
    ensures
        without_name(fields, name) == fields,
        first_value(fields, name) is None,
    decreases fields.len(),
{
    lemma_first_value(fields, name);
    if fields.len() > 0 {
        let rest = fields.drop_last();
        if has_name(rest, name) {
            let i = choose|i: int| 0 <= i < rest.len() && (#[trigger] rest[i]).0 == name;
            assert(fields[i].0 == name);
        }
        lemma_without_absent(rest, name);
        assert(fields[fields.len() - 1].0 != name);
        assert(rest.push(fields.last()) =~= fields);
    }
}

/// What it takes for a request to come back from the wire as it went. The
/// method is a method. What `http` and `url_encoded_data` read says what was
/// written: the target is read as the path and the query, and the query and
/// the form are read as their pairs. Every header has a normalised name and
/// a value of visible ASCII. The cookies are plain. A form is announced by
/// the first `Content-Type`, and a body of octets is not taken for a form.
pub open spec fn survives_wire(req: RequestView) -> bool {
    &&& is_method_text(encode_utf8(req.method))
    &&& origin_form(target_text(req.path, req.query_params)) == Some(
        (req.path, query_text(req.query_params)),
    )
    &&& req.query_params matches Some(groups) ==> form_pairs(joined(pairs_of(groups), "&"@))
        == pairs_of(groups)
    &&& pairs_are_plain(pairs_of(req.headers))
    &&& req.cookies matches Some(cookies) ==> cookies_are_plain(cookies)
    &&& match req.body {
        BodyView::Blob(bytes) => !(spec_says_form(plain_fields(pairs_of(req.headers))) && valid_utf8(
            bytes,
        )),
        BodyView::UrlEncoded(groups) => {
            &&& spec_says_form(plain_fields(pairs_of(req.headers)))
            &&& form_pairs(form_text(pairs_of(groups))) == pairs_of(groups)
        },
    }
}

/// Whether the first field of a name is the same with one more field of
/// another name behind the fields.
pub proof fn lemma_first_value_push(
    fields: Seq<(Seq<char>, Seq<u8>)>,
    name: Seq<char>,
    other: Seq<char>,
    value: Seq<u8>,
)
    ensures
        first_value(fields.push((other, value)), name) == if has_name(fields, name) || other != name {
            first_value(fields, name)
        } else {
            Some(value)
        },
    decreases fields.len(),
{
    let more = fields.push((other, value));
    lemma_first_value(fields, name);
    if fields.len() == 0 {
        assert(more.drop_first() =~= fields);
        assert(first_value(fields, name) is None);
    } else {
        assert(more.drop_first() =~= fields.drop_first().push((other, value)));
        if fields[0].0 == name {
            assert(has_name(fields, name));
        } else {
            lemma_first_value_push(fields.drop_first(), name, other, value);
            lemma_first_value(fields.drop_first(), name);
            if has_name(fields, name) {
                let i = choose|i: int| 0 <= i < fields.len() && (#[trigger] fields[i]).0 == name;
                assert(fields.drop_first()[i - 1].0 == name);
            }
            if has_name(fields.drop_first(), name) {
                let i = choose|i: int|
                    0 <= i < fields.drop_first().len() && (#[trigger] fields.drop_first()[i]).0
                        == name;
                assert(fields[i + 1].0 == name);
            }
        }
    }
}

/// To the wire and back: a well-formed request that meets
/// [`survives_wire`] is a message on the wire, and the request that this
/// message is, is the request that went: the same method, path, query,
/// headers, cookies and body.
pub proof fn lemma_wire_round_trip(req: RequestView)
    requires
        request_view_wf(req),
        survives_wire(req),
    ensures
        spec_into(req, origin_form(target_text(req.path, req.query_params))) is Some,
        spec_from(
            spec_into(req, origin_form(target_text(req.path, req.query_params))).unwrap(),
        ) == req,
{
    let pairs = pairs_of(req.headers);
    let fields = plain_fields(pairs);
    lemma_plain_fields(pairs);
    lemma_groups_round_trip(req.headers);
    lemma_groups_of_keys(pairs, HEADER_COOKIE@);
    assert(!has_name(fields, HEADER_COOKIE@)) by {
        if has_name(fields, HEADER_COOKIE@) {
            let i = choose|i: int| 0 <= i < fields.len() && (#[trigger] fields[i]).0 == HEADER_COOKIE@;
            assert(pairs[i].0 == HEADER_COOKIE@);
        }
    }
    lemma_without_absent(fields, HEADER_COOKIE@);
    let wire = spec_into(req, origin_form(target_text(req.path, req.query_params))).unwrap();
    let back = spec_from(wire);
    if let Some(groups) = req.query_params {
        lemma_groups_round_trip(groups);
    }
    match req.cookies {
        Some(cookies) => {
            lemma_cookies_round_trip(cookies);
            let value = encode_utf8(cookie_text(cookies));
            let more = fields.push((HEADER_COOKIE@, value));
            assert(wire.fields == more);
            assert(more.drop_last() =~= fields);
            assert(without_name(more, HEADER_COOKIE@) == fields);
            lemma_first_value_push(fields, HEADER_COOKIE@, HEADER_COOKIE@, value);
            lemma_first_value_push(
                fields,
                HEADER_CONTENT_TYPE@,
                HEADER_COOKIE@,
                value,
            );
            lemma_cookie_is_no_content_type();
        },
        None => {
            assert(wire.fields == fields);
        },
    }
    assert(spec_says_form(wire.fields) == spec_says_form(fields));
    match req.body {
        BodyView::Blob(bytes) => {},
        BodyView::UrlEncoded(groups) => {
            let text = form_text(pairs_of(groups));
            encode_utf8_valid_utf8(text);
            encode_utf8_decode_utf8(text);
            lemma_groups_round_trip(groups);
        },
    }
    assert(back.headers == req.headers);
    assert(back.cookies == req.cookies);
    assert(back.query_params == req.query_params);
    assert(back.body == req.body);
}

/// `cookie` and `content-type` are two names.
pub proof fn lemma_cookie_is_no_content_type()
    ensures
        HEADER_COOKIE@ != HEADER_CONTENT_TYPE@,
{
    reveal_strlit("cookie");
    reveal_strlit("content-type");
    assert(HEADER_COOKIE@.len() == 6);
    assert(HEADER_CONTENT_TYPE@.len() == 12);
}

} // verus!
