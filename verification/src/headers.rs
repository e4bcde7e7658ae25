//! HTTP header tables: reading response header values and building the
//! headers of API requests.
use vstd::prelude::*;
use crate::registry::Registry;
use crate::text::push_char;

verus! {

/// The texts of a table of strings.
pub open spec fn text_map(m: Map<Seq<char>, String>) -> Map<Seq<char>, Seq<char>> {
    m.map_values(|s: String| s@)
}

/// Whether a header byte is a visible ASCII character or a tab.
pub open spec fn is_visible_ascii(b: u8) -> bool {
    b == 9 || (32 <= b && b < 127)
}

/// The text of a header value: its characters where every byte is visible
/// ASCII (`HeaderValue::to_str`), and the empty string otherwise.
pub open spec fn header_value_text(bytes: Seq<u8>) -> Seq<char> {
    if forall|i: int| 0 <= i < bytes.len() ==> is_visible_ascii(#[trigger] bytes[i]) {
        bytes.map_values(|b: u8| b as char)
    } else {
        Seq::empty()
    }
}

/// The text of a header value, empty where it holds bytes other than
/// visible ASCII.
pub fn header_text(bytes: &Vec<u8>) -> (r: String)
    ensures
        r@ == header_value_text(bytes@),
{
    let mut i: usize = 0;
    while i < bytes.len()
        invariant
            i <= bytes@.len(),
            forall|k: int| 0 <= k < i ==> is_visible_ascii(#[trigger] bytes@[k]),
        decreases bytes@.len() - i,
    {
        let b = bytes[i];
        if !(b == 9 || (32 <= b && b < 127)) {
            assert(!is_visible_ascii(bytes@[i as int]));
            return String::new();
        }
        i = i + 1;
    }
    let mut r = String::new();
    let mut j: usize = 0;
    while j < bytes.len()
        invariant
            j <= bytes@.len(),
            r@ == bytes@.take(j as int).map_values(|b: u8| b as char),
        decreases bytes@.len() - j,
    {
        push_char(&mut r, bytes[j] as char);
        assert(bytes@.take(j + 1).map_values(|b: u8| b as char) =~= bytes@.take(j as int).map_values(
            |b: u8| b as char,
        ).push(bytes@[j as int] as char));
        j = j + 1;
    }
    assert(bytes@.take(bytes@.len() as int) =~= bytes@);
    r
}

/// The table built by inserting each `(name, value)` in turn; a later value
/// under a name replaces an earlier one.
pub open spec fn collected_headers(pairs: Seq<(Seq<char>, Seq<u8>)>) -> Map<Seq<char>, Seq<char>>
    decreases pairs.len(),
{
    if pairs.len() == 0 {
        Map::empty()
    } else {
        collected_headers(pairs.drop_last()).insert(
            pairs.last().0,
            header_value_text(pairs.last().1),
        )
    }
}

/// The header table of a response, from its header names and raw values in
/// the order the response lists them.
pub fn collect_headers(pairs: Vec<(String, Vec<u8>)>) -> (r: Registry<String>)
    ensures
        text_map(r@) == collected_headers(pairs@.map_values(|p: (String, Vec<u8>)| (p.0@, p.1@))),
{
    let ghost ps = pairs@.map_values(|p: (String, Vec<u8>)| (p.0@, p.1@));
    let mut r: Registry<String> = Registry::new();
    let mut i: usize = 0;
    assert(text_map(r@) =~= collected_headers(ps.take(0)));
    while i < pairs.len()
        invariant
            i <= pairs@.len(),
            ps == pairs@.map_values(|p: (String, Vec<u8>)| (p.0@, p.1@)),
            text_map(r@) == collected_headers(ps.take(i as int)),
        decreases pairs@.len() - i,
    {
        let name = pairs[i].0.clone();
        let value = header_text(&pairs[i].1);
        let ghost before = r@;
        r.insert(name, value);
        proof {
            assert(ps.take(i + 1).drop_last() =~= ps.take(i as int));
            assert(text_map(r@) =~= text_map(before).insert(ps[i as int].0, header_value_text(ps[i as int].1)));
        }
        i = i + 1;
    }
    assert(ps.take(pairs@.len() as int) =~= ps);
    r
}

} // verus!
