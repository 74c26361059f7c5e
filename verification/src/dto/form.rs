//! Form data, `application/x-www-form-urlencoded`: text to pairs and back,
//! as `url_encoded_data` reads and writes it.

use crate::dto::keyed::pair_texts;
use vstd::prelude::*;

verus! {

/// The media type of form data.
pub const MIME_URL_ENCODED: &'static str = "application/x-www-form-urlencoded";

/// The pairs that `url_encoded_data::UrlEncodedData` reads in a text,
/// decoded: the keys in the order in which they first stand in the text,
/// each with its values in their order.
pub uninterp spec fn form_pairs(text: Seq<char>) -> Seq<(Seq<char>, Seq<char>)>;

/// The text that `url_encoded_data::stringify` writes for pairs, encoded.
pub uninterp spec fn form_text(pairs: Seq<(Seq<char>, Seq<char>)>) -> Seq<char>;

/// `url_encoded_data::UrlEncodedData::from` and `as_pairs_of_original_order`
/// on what it gives, each pair as two strings.
#[verifier::external_body]
pub(crate) fn decode_form(text: &str) -> (r: Vec<(String, String)>)
    ensures
        pair_texts(r@) == form_pairs(text@),
{
    ::url_encoded_data::UrlEncodedData::from(text)
        .as_pairs_of_original_order()
        .into_iter()
        .map(|(key, value)| (key.to_string(), value.to_string()))
        .collect()
}

/// `url_encoded_data::stringify` on the pairs, borrowed.
#[verifier::external_body]
pub(crate) fn encode_form(pairs: &Vec<(String, String)>) -> (r: String)
    ensures
        r@ == form_text(pair_texts(pairs@)),
{
    let borrowed: Vec<(&str, &str)> =
        pairs.iter().map(|(key, value)| (key.as_str(), value.as_str())).collect();
    ::url_encoded_data::stringify(&borrowed)
}

} // verus!
