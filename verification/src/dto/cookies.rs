//! The cookies of a request: one value for each name.

use crate::dto::keyed::{
    has_key, key_index, keys_distinct, lemma_key_index, lemma_key_index_is, lemma_key_index_none,
    pair_texts,
};
use crate::http::parser::primitives::{
    is_linear_whitespace, lemma_whitespace_run, spec_is_linear_whitespace, whitespace_run,
    EQUALS_SIGN, SEMICOLON,
};
use crate::text::{ascii_string, ascii_text, is_ascii_bytes};
use vstd::prelude::*;
use vstd::slice::slice_subrange;

verus! {

/// The cookies after one more: a name that is there gets the new value
/// where it stands, a new name comes last.
pub open spec fn cookies_with(
    entries: Seq<(Seq<char>, Seq<char>)>,
    name: Seq<char>,
    value: Seq<char>,
) -> Seq<(Seq<char>, Seq<char>)> {
    let i = key_index(entries, name);
    if i < entries.len() {
        entries.update(i, (name, value))
    } else {
        entries.push((name, value))
    }
}

/// One more cookie leaves every name with one value.
pub proof fn lemma_cookies_with(
    entries: Seq<(Seq<char>, Seq<char>)>,
    name: Seq<char>,
    value: Seq<char>,
)
    requires
        keys_distinct(entries),
    ensures
        keys_distinct(cookies_with(entries, name, value)),
        cookies_with(entries, name, value).len() > 0,
{
    lemma_key_index(entries, name);
}

/// Cookies by name, in the order in which the names came. A name has one
/// value: the last that was given for it.
#[derive(Debug, PartialEq, Eq)]
pub struct Cookies {
    entries: Vec<(String, String)>,
}

impl View for Cookies {
    type V = Seq<(Seq<char>, Seq<char>)>;

    closed spec fn view(&self) -> Seq<(Seq<char>, Seq<char>)> {
        Seq::new(self.entries@.len(), |i: int| (self.entries@[i].0@, self.entries@[i].1@))
    }
}

impl Clone for Cookies {
    fn clone(&self) -> (r: Self)
        ensures
            r@ == self@,
    {
        let mut entries: Vec<(String, String)> = Vec::new();
        let n = self.entries.len();
        let mut i: usize = 0;
        while i < n
            invariant
                0 <= i <= n,
                n == self.entries@.len(),
                entries@.len() == i,
                forall|j: int|
                    0 <= j < i ==> (#[trigger] entries@[j]).0@ == self.entries@[j].0@
                        && entries@[j].1@ == self.entries@[j].1@,
            decreases n - i,
        {
            entries.push((self.entries[i].0.clone(), self.entries[i].1.clone()));
            i += 1;
        }
        let r = Cookies { entries };
        assert(r@ =~= self@);
        r
    }
}

impl Cookies {
    /// No name stands twice.
    pub open spec fn wf(&self) -> bool {
        keys_distinct(self@)
    }

    /// No cookies.
    pub fn new() -> (r: Cookies)
        ensures
            r.wf(),
            r@ == Seq::<(Seq<char>, Seq<char>)>::empty(),
    {
        let r = Cookies { entries: Vec::new() };
        assert(r@ =~= Seq::<(Seq<char>, Seq<char>)>::empty());
        r
    }

    /// The number of cookies.
    pub fn len(&self) -> (r: usize)
        ensures
            r == self@.len(),
    {
        self.entries.len()
    }

    /// The name of the cookie at `i`.
    pub fn name_at(&self, i: usize) -> (r: &String)
        requires
            i < self@.len(),
        ensures
            r@ == self@[i as int].0,
    {
        &self.entries[i].0
    }

    /// The value of the cookie at `i`.
    pub fn value_at(&self, i: usize) -> (r: &String)
        requires
            i < self@.len(),
        ensures
            r@ == self@[i as int].1,
    {
        &self.entries[i].1
    }

    /// The cookies as pairs of strings.
    pub fn to_pairs(&self) -> (r: Vec<(String, String)>)
        ensures
            pair_texts(r@) == self@,
    {
        let r = self.clone().entries;
        assert(pair_texts(r@) =~= self@);
        r
    }

    /// Where the cookie of the name stands.
    fn position(&self, name: &String) -> (r: Option<usize>)
        ensures
            match r {
                Some(i) => i == key_index(self@, name@) && i < self@.len(),
                None => !has_key(self@, name@),
            },
    {
        let n = self.entries.len();
        let mut i: usize = 0;
        while i < n
            invariant
                0 <= i <= n,
                n == self.entries@.len(),
                forall|j: int| 0 <= j < i ==> (#[trigger] self@[j]).0 != name@,
            decreases n - i,
        {
            if self.entries[i].0 == *name {
                proof {
                    lemma_key_index_is(self@, name@, i as int);
                }
                return Some(i);
            }
            i += 1;
        }
        proof {
            lemma_key_index_none(self@, name@);
        }
        None
    }

    /// The value of the cookie of the name.
    pub fn get(&self, name: &str) -> (r: Option<&String>)
        ensures
            r is Some <==> has_key(self@, name@),
            r matches Some(value) ==> value@ == self@[key_index(self@, name@)].1,
    {
        let wanted = name.to_owned();
        match self.position(&wanted) {
            Some(i) => Some(&self.entries[i].1),
            None => None,
        }
    }

    /// Gives the name the value: in the place of the value that the name
    /// had, or after the other cookies.
    pub fn insert(&mut self, name: String, value: String)
        requires
            old(self).wf(),
        ensures
            final(self).wf(),
            final(self)@ == cookies_with(old(self)@, name@, value@),
    {
        let ghost before = self@;
        proof {
            lemma_cookies_with(before, name@, value@);
        }
        match self.position(&name) {
            Some(i) => {
                self.entries.set(i, (name, value));
            },
            None => {
                self.entries.push((name, value));
            },
        }
        assert(self@ =~= cookies_with(before, name@, value@));
    }
}

/// The pieces of `s` between the octets `sep`: one more than there are
/// separators, each piece perhaps empty.
pub open spec fn split_on(s: Seq<u8>, sep: u8) -> Seq<Seq<u8>>
    decreases s.len(),
{
    if s.len() == 0 {
        seq![Seq::empty()]
    } else {
        let before = split_on(s.drop_last(), sep);
        if s.last() == sep {
            before.push(Seq::empty())
        } else {
            before.update(before.len() - 1, before.last().push(s.last()))
        }
    }
}

/// The length of the longest run of spaces and tabs that ends `s`.
pub open spec fn trailing_whitespace_run(s: Seq<u8>) -> nat
    decreases s.len(),
{
    if s.len() == 0 || !spec_is_linear_whitespace(s.last()) {
        0
    } else {
        1 + trailing_whitespace_run(s.drop_last())
    }
}

/// `s` without the spaces and tabs that start it and those that end it.
pub open spec fn trimmed(s: Seq<u8>) -> Seq<u8> {
    let tail = s.skip(whitespace_run(s) as int);
    tail.take(tail.len() - trailing_whitespace_run(tail))
}

/// The cookie that one piece of a `Cookie` header spells: before the first
/// `=` the name, trimmed; between the first `=` and the second the value,
/// as it stands. A piece without `=` names a cookie without a value.
pub open spec fn cookie_of(piece: Seq<u8>) -> (Seq<char>, Seq<char>) {
    let parts = split_on(piece, EQUALS_SIGN);
    (
        ascii_text(trimmed(parts[0])),
        if parts.len() > 1 {
            ascii_text(parts[1])
        } else {
            Seq::empty()
        },
    )
}

/// The cookies that the pieces spell: where a name comes again, its last
/// value stays.
pub open spec fn cookies_of_pieces(pieces: Seq<Seq<u8>>) -> Seq<(Seq<char>, Seq<char>)>
    decreases pieces.len(),
{
    if pieces.len() == 0 {
        Seq::empty()
    } else {
        let cookie = cookie_of(pieces.last());
        cookies_with(cookies_of_pieces(pieces.drop_last()), cookie.0, cookie.1)
    }
}

/// The cookies that the value of a `Cookie` header spells: its pieces are
/// parted by `;`.
pub open spec fn spec_parse_cookies(value: Seq<u8>) -> Seq<(Seq<char>, Seq<char>)> {
    cookies_of_pieces(split_on(value, SEMICOLON))
}

/// The octets of each row.
pub open spec fn rows(pieces: Seq<Vec<u8>>) -> Seq<Seq<u8>> {
    Seq::new(pieces.len(), |i: int| pieces[i]@)
}

/// Splitting gives at least one piece, and pieces of ASCII where the
/// whole is ASCII.
pub proof fn lemma_split_on(s: Seq<u8>, sep: u8)
    ensures
        split_on(s, sep).len() >= 1,
        is_ascii_bytes(s) ==> forall|i: int|
            0 <= i < split_on(s, sep).len() ==> is_ascii_bytes(#[trigger] split_on(s, sep)[i]),
    decreases s.len(),
{
    if s.len() > 0 {
        lemma_split_on(s.drop_last(), sep);
        if is_ascii_bytes(s) {
            assert(is_ascii_bytes(s.drop_last()));
            assert(s.last() <= 127);
        }
    }
}

/// A run of spaces and tabs that ends `s` and has `n` octets is the
/// longest there is.
pub proof fn lemma_trailing_whitespace_run(s: Seq<u8>, n: int)
    requires
        0 <= n <= s.len(),
        forall|j: int| s.len() - n <= j < s.len() ==> spec_is_linear_whitespace(#[trigger] s[j]),
        n < s.len() ==> !spec_is_linear_whitespace(s[s.len() - n - 1]),
    ensures
        trailing_whitespace_run(s) == n,
    decreases n,
{
    if n > 0 {
        let rest = s.drop_last();
        lemma_trailing_whitespace_run(rest, n - 1);
    }
}

/// The pieces of `s` between the octets `sep`.
pub fn split_bytes(s: &[u8], sep: u8) -> (r: Vec<Vec<u8>>)
    ensures
        rows(r@) == split_on(s@, sep),
{
    let mut pieces: Vec<Vec<u8>> = Vec::new();
    let mut current: Vec<u8> = Vec::new();
    let n = s.len();
    let mut i: usize = 0;
    assert(rows(pieces@).push(current@) =~= split_on(s@.take(0), sep));
    while i < n
        invariant
            0 <= i <= n,
            n == s@.len(),
            rows(pieces@).push(current@) == split_on(s@.take(i as int), sep),
        decreases n - i,
    {
        let ghost before = split_on(s@.take(i as int), sep);
        proof {
            assert(s@.take(i + 1).drop_last() =~= s@.take(i as int));
            assert(s@.take(i + 1).last() == s@[i as int]);
            assert(before.last() == current@);
        }
        if s[i] == sep {
            pieces.push(current);
            current = Vec::new();
            assert(rows(pieces@).push(current@) =~= before.push(Seq::empty()));
        } else {
            current.push(s[i]);
            assert(rows(pieces@).push(current@) =~= before.update(
                before.len() - 1,
                before.last().push(s@[i as int]),
            ));
        }
        i += 1;
    }
    assert(s@.take(n as int) =~= s@);
    pieces.push(current);
    assert(rows(pieces@) =~= split_on(s@, sep));
    pieces
}

/// `s` without the spaces and tabs that start it and those that end it.
pub fn trim_bytes(s: &[u8]) -> (r: &[u8])
    ensures
        r@ == trimmed(s@),
{
    let n = s.len();
    let mut start: usize = 0;
    while start < n && is_linear_whitespace(s[start])
        invariant
            0 <= start <= n,
            n == s@.len(),
            forall|j: int| 0 <= j < start ==> spec_is_linear_whitespace(#[trigger] s@[j]),
        decreases n - start,
    {
        start += 1;
    }
    proof {
        lemma_whitespace_run(s@, start as int);
    }
    let ghost tail = s@.skip(start as int);
    let mut end: usize = n;
    while end > start && is_linear_whitespace(s[end - 1])
        invariant
            start <= end <= n,
            n == s@.len(),
            tail == s@.skip(start as int),
            forall|j: int| end - start <= j < n - start ==> spec_is_linear_whitespace(
                #[trigger] tail[j],
            ),
        decreases end,
    {
        end -= 1;
    }
    proof {
        lemma_trailing_whitespace_run(tail, n - end);
    }
    let r = slice_subrange(s, start, end);
    assert(r@ =~= trimmed(s@));
    r
}

/// Reads the cookies in the value of a `Cookie` header.
pub fn parse_cookies(value: &[u8]) -> (r: Cookies)
    requires
        is_ascii_bytes(value@),
    ensures
        r.wf(),
        r@ == spec_parse_cookies(value@),
        r@.len() > 0,
{
    let pieces = split_bytes(value, SEMICOLON);
    proof {
        lemma_split_on(value@, SEMICOLON);
    }
    let mut cookies = Cookies::new();
    let n = pieces.len();
    let mut i: usize = 0;
    assert(rows(pieces@).take(0) =~= Seq::<Seq<u8>>::empty());
    while i < n
        invariant
            0 <= i <= n,
            n == pieces@.len(),
            cookies.wf(),
            cookies@ == cookies_of_pieces(rows(pieces@).take(i as int)),
            i > 0 ==> cookies@.len() > 0,
            forall|j: int| 0 <= j < n ==> is_ascii_bytes(#[trigger] rows(pieces@)[j]),
        decreases n - i,
    {
        let piece = pieces[i].as_slice();
        proof {
            assert(rows(pieces@).take(i + 1).drop_last() =~= rows(pieces@).take(i as int));
            assert(rows(pieces@).take(i + 1).last() == piece@);
            assert(is_ascii_bytes(rows(pieces@)[i as int]));
            lemma_split_on(piece@, EQUALS_SIGN);
            lemma_cookies_with(cookies@, cookie_of(piece@).0, cookie_of(piece@).1);
        }
        let parts = split_bytes(piece, EQUALS_SIGN);
        assert(parts@[0]@ == rows(parts@)[0]);
        let name_bytes = trim_bytes(parts[0].as_slice());
        proof {
            assert(is_ascii_bytes(rows(parts@)[0]));
            lemma_trimmed_ascii(parts@[0]@);
        }
        let name = ascii_string(name_bytes);
        let value = if parts.len() > 1 {
            assert(parts@[1]@ == rows(parts@)[1]);
            assert(is_ascii_bytes(rows(parts@)[1]));
            ascii_string(parts[1].as_slice())
        } else {
            String::new()
        };
        cookies.insert(name, value);
        i += 1;
    }
    assert(rows(pieces@).take(n as int) =~= rows(pieces@));
    cookies
}

/// A run of whitespace is no longer than what it starts.
pub proof fn lemma_whitespace_run_bound(s: Seq<u8>)
    ensures
        whitespace_run(s) <= s.len(),
    decreases s.len(),
{
    if s.len() > 0 && spec_is_linear_whitespace(s[0]) {
        lemma_whitespace_run_bound(s.drop_first());
    }
}

/// A run of whitespace is no longer than what it ends.
pub proof fn lemma_trailing_whitespace_run_bound(s: Seq<u8>)
    ensures
        trailing_whitespace_run(s) <= s.len(),
    decreases s.len(),
{
    if s.len() > 0 && spec_is_linear_whitespace(s.last()) {
        lemma_trailing_whitespace_run_bound(s.drop_last());
    }
}

/// What is left of ASCII after trimming is ASCII.
pub proof fn lemma_trimmed_ascii(s: Seq<u8>)
    requires
        is_ascii_bytes(s),
    ensures
        is_ascii_bytes(trimmed(s)),
{
    lemma_whitespace_run_bound(s);
    let lead = whitespace_run(s) as int;
    let tail = s.skip(lead);
    lemma_trailing_whitespace_run_bound(tail);
    assert forall|j: int| 0 <= j < trimmed(s).len() implies #[trigger] trimmed(s)[j] <= 127 by {
        assert(trimmed(s)[j] == s[j + lead]);
    }
}

} // verus!
