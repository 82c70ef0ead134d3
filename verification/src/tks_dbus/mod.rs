//! D-Bus facing logic of the service: object paths and their parsing.

pub mod client_context;
pub mod collection_impl;
pub mod fdo;
pub mod item_impl;
pub mod prompt_impl;
pub mod service_impl;
pub mod session_impl;

use vstd::prelude::*;
use crate::ids::{
    hex_digit, is_hyphen_position, lemma_hex_digit_injective, lemma_nibble_bound, lemma_nibbles_determine_value, nibble,
    nibble_index, uuid_text, uuid_to_string,
};
use crate::text::{
    decimal, from_literal, is_digit, lemma_decimal_free_of, lemma_split_last, parse_usize,
    parsed_usize, push_char, split_on, split_segments, usize_to_decimal,
};

verus! {

/// The characters that may stand in an element of a D-Bus object path.
pub open spec fn is_path_char(c: char) -> bool {
    ('A' <= c && c <= 'Z') || ('a' <= c && c <= 'z') || ('0' <= c && c <= '9') || c == '_'
}

/// `c` when it may stand in an object path, `_` otherwise.
pub open spec fn sanitized_char(c: char) -> char {
    if is_path_char(c) { c } else { '_' }
}

/// The text `s` with every char that may not stand in an object path replaced by `_`.
pub open spec fn sanitized(s: Seq<char>) -> Seq<char> {
    Seq::new(s.len(), |i: int| sanitized_char(s[i]))
}

/// Law: a sanitized text is as long as the text and holds only characters that may stand
/// in an element of an object path.
pub proof fn lemma_sanitized_is_path_element(s: Seq<char>)
    ensures
        sanitized(s).len() == s.len(),
        forall|i: int| 0 <= i < s.len() ==> is_path_char(#[trigger] sanitized(s)[i]),
{
}

/// Makes `s` usable as one element of a D-Bus object path.
pub fn sanitize_string(s: &str) -> (r: String)
    requires
        s@.len() > 0,
    ensures
        r@ == sanitized(s@),
{
    let n = s.unicode_len();
    let mut r = String::new();
    let mut i: usize = 0;
    while i < n
        invariant
            n == s@.len(),
            i <= n,
            r@ == sanitized(s@.subrange(0, i as int)),
        decreases n - i,
    {
        let c = s.get_char(i);
        let d = if ('A' <= c && c <= 'Z') || ('a' <= c && c <= 'z') || ('0' <= c && c <= '9') || c == '_' {
            c
        } else {
            '_'
        };
        push_char(&mut r, d);
        i = i + 1;
        assert(r@ =~= sanitized(s@.subrange(0, i as int)));
    }
    assert(s@.subrange(0, n as int) =~= s@);
    r
}


/// The object path (or paths) under which a D-Bus object is registered.
#[derive(Debug)]
pub enum DBusHandlePath {
    SinglePath(String),
    MultiplePaths(Vec<String>),
}

/// The text of the path (or paths) of a [`DBusHandlePath`].
pub enum PathsView {
    Single(Seq<char>),
    Multiple(Seq<Seq<char>>),
}

impl View for DBusHandlePath {
    type V = PathsView;

    open spec fn view(&self) -> PathsView {
        match self {
            DBusHandlePath::SinglePath(p) => PathsView::Single(p@),
            DBusHandlePath::MultiplePaths(v) => PathsView::Multiple(v@.map_values(|p: String| p@)),
        }
    }
}

/// The path that stands for a handle path: the path itself, or the first of several.
pub open spec fn main_path(p: PathsView) -> Seq<char> {
    match p {
        PathsView::Single(s) => s,
        PathsView::Multiple(v) => v[0],
    }
}

impl DBusHandlePath {
    /// The path that stands for this handle path: the path itself, or the first of several.
    pub fn into_path(self) -> (r: String)
        requires
            self matches DBusHandlePath::MultiplePaths(v) ==> v@.len() > 0,
        ensures
            r@ == main_path(self@),
    {
        match self {
            DBusHandlePath::SinglePath(p) => p,
            DBusHandlePath::MultiplePaths(v) => {
                let first = v[0].clone();
                first
            },
        }
    }
}

/// An object the service publishes on D-Bus.
pub trait DBusHandle {
    /// The path (or paths) of the object.
    spec fn handle_path(&self) -> PathsView;

    fn path(&self) -> (r: DBusHandlePath)
        ensures
            r@ == self.handle_path(),
    ;
}

/// Path of the service object.
pub open spec fn service_path() -> Seq<char> {
    "/org/freedesktop/secrets"@
}

/// Path of session `id`.
pub open spec fn session_path(id: nat) -> Seq<char> {
    "/org/freedesktop/secrets/session/"@ + decimal(id)
}

/// Path of prompt `id`.
pub open spec fn prompt_path(id: nat) -> Seq<char> {
    "/org/freedesktop/secrets/prompt/"@ + decimal(id)
}

/// The path of an object whose last element is the decimal `id`, under `prefix`.
pub fn numbered_path(prefix: &str, id: usize) -> (r: String)
    ensures
        r@ == prefix@ + decimal(id as nat),
{
    let r = from_literal(prefix);
    let d = usize_to_decimal(id);
    r.concat(d.as_str())
}

/// The number that ends `path`, as `path.split('/').last().unwrap().parse::<usize>()` reads it.
pub open spec fn trailing_number(path: Seq<char>) -> Option<usize> {
    parsed_usize(split_on(path, '/').last())
}

/// Reads the number (a session id) that ends an object path.
pub fn trailing_number_of(path: &str) -> (r: Option<usize>)
    ensures
        r == trailing_number(path@),
{
    let parts = split_segments(path, '/');
    proof { crate::text::lemma_split_on_nonempty(path@, '/'); }
    let last = parts.len() - 1;
    parse_usize(parts[last].as_str())
}

/// Law: the number that ends a path built from a prefix ending in `/` and a decimal
/// number is that number.
pub proof fn lemma_trailing_number_round_trip(prefix: Seq<char>, id: usize)
    requires
        prefix.len() > 0,
        prefix.last() == '/',
    ensures
        trailing_number(prefix + decimal(id as nat)) == Some(id),
{
    let a = prefix.drop_last();
    assert(prefix =~= a + seq!['/']);
    assert(prefix + decimal(id as nat) =~= a + seq!['/'] + decimal(id as nat));
    lemma_decimal_free_of(id as nat, '/');
    lemma_split_last(a, decimal(id as nat), '/');
    crate::text::lemma_parse_decimal_round_trip(id);
}

/// Law: the session id read back from a session path is the session's id.
pub proof fn lemma_session_path_round_trip(id: usize)
    ensures
        trailing_number(session_path(id as nat)) == Some(id),
{
    reveal_strlit("/org/freedesktop/secrets/session/");
    lemma_trailing_number_round_trip("/org/freedesktop/secrets/session/"@, id);
}

/// Path of collection `uuid`.
pub open spec fn collection_path(uuid: u128) -> Seq<char> {
    "/org/freedesktop/secrets/collection/"@ + sanitized(uuid_text(uuid))
}

/// Path of item `item` of collection `collection`.
pub open spec fn item_path(collection: u128, item: u128) -> Seq<char> {
    "/org/freedesktop/secrets/collection/"@ + sanitized(uuid_text(collection)) + "/"@ + sanitized(uuid_text(item))
}

/// The path element that stands for a UUID.
pub fn uuid_element(u: u128) -> (r: String)
    ensures
        r@ == sanitized(uuid_text(u)),
{
    let t = uuid_to_string(u);
    sanitize_string(t.as_str())
}

/// Builds the path of collection `uuid`.
pub fn make_collection_path(uuid: u128) -> (r: String)
    ensures
        r@ == collection_path(uuid),
{
    from_literal("/org/freedesktop/secrets/collection/").concat(uuid_element(uuid).as_str())
}

/// Builds the path of item `item` of collection `collection`.
pub fn make_item_path(collection: u128, item: u128) -> (r: String)
    ensures
        r@ == item_path(collection, item),
{
    from_literal("/org/freedesktop/secrets/collection/")
        .concat(uuid_element(collection).as_str())
        .concat("/")
        .concat(uuid_element(item).as_str())
}
/// The position in the hyphenated text of a UUID of its `q`-th hexadecimal digit.
pub open spec fn digit_position(q: int) -> int {
    if q < 8 {
        q
    } else if q < 12 {
        q + 1
    } else if q < 16 {
        q + 2
    } else if q < 20 {
        q + 3
    } else {
        q + 4
    }
}

/// Law: the path element of a UUID names that UUID: two UUIDs with the same element are
/// equal.
pub proof fn lemma_uuid_element_injective(u: u128, v: u128)
    requires
        sanitized(uuid_text(u)) == sanitized(uuid_text(v)),
    ensures
        u == v,
{
    assert forall|q: int| 0 <= q < 32 implies nibble(u, q) == nibble(v, q) by {
        let i = digit_position(q);
        assert(!is_hyphen_position(i));
        assert(nibble_index(i) == q);
        lemma_nibble_bound(u, q);
        lemma_nibble_bound(v, q);
        let a = nibble(u, q);
        let b = nibble(v, q);
        assert(uuid_text(u)[i] == hex_digit(a));
        assert(uuid_text(v)[i] == hex_digit(b));
        assert((hex_digit(a) as u32) == (if a < 10 { 48 + a } else { 87 + a }));
        assert((hex_digit(b) as u32) == (if b < 10 { 48 + b } else { 87 + b }));
        assert(is_path_char(hex_digit(a)));
        assert(is_path_char(hex_digit(b)));
        assert(sanitized(uuid_text(u))[i] == sanitized(uuid_text(v))[i]);
        assert(sanitized(uuid_text(u))[i] == sanitized_char(uuid_text(u)[i]));
        assert(sanitized(uuid_text(v))[i] == sanitized_char(uuid_text(v)[i]));
        assert(sanitized_char(hex_digit(a)) == hex_digit(a));
        assert(sanitized_char(hex_digit(b)) == hex_digit(b));
        lemma_hex_digit_injective(a, b);
    }
    lemma_nibbles_determine_value(u, v);
}

/// Law: an item path names one item of one collection.
pub proof fn lemma_item_path_injective(c1: u128, u1: u128, c2: u128, u2: u128)
    requires
        item_path(c1, u1) == item_path(c2, u2),
    ensures
        c1 == c2,
        u1 == u2,
{
    reveal_strlit("/org/freedesktop/secrets/collection/");
    reveal_strlit("/");
    let p1 = item_path(c1, u1);
    let p2 = item_path(c2, u2);
    assert(p1.subrange(36, 72) =~= sanitized(uuid_text(c1)));
    assert(p2.subrange(36, 72) =~= sanitized(uuid_text(c2)));
    assert(p1.subrange(73, 109) =~= sanitized(uuid_text(u1)));
    assert(p2.subrange(73, 109) =~= sanitized(uuid_text(u2)));
    lemma_uuid_element_injective(c1, c2);
    lemma_uuid_element_injective(u1, u2);
}

/// Law: a collection path names one collection.
pub proof fn lemma_collection_path_injective(u: u128, v: u128)
    requires
        collection_path(u) == collection_path(v),
    ensures
        u == v,
{
    reveal_strlit("/org/freedesktop/secrets/collection/");
    assert(collection_path(u).subrange(36, 72) =~= sanitized(uuid_text(u)));
    assert(collection_path(v).subrange(36, 72) =~= sanitized(uuid_text(v)));
    lemma_uuid_element_injective(u, v);
}

} // verus!
