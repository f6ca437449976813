//! Decoded rows as JSON.
//!
//! A row is the list of the nodes of its JSON object in the order in which
//! they are written: each with the keys that lead to it. Numbers with a
//! fraction are not told apart here; see [`JsonValue::Plain`].

use crate::clock::{event_time, format_event_time, Millis, LAST_MILLIS};
use crate::decimal::{decimal_number, parse_decimal};
use crate::line::HeaderView;
use crate::text::{same_text, text_of, trim, trimmed, views};
use vstd::prelude::*;

verus! {

/// Rows that the preview shows.
pub const PREVIEW_ROWS: usize = 20;

/// The value of a node.
#[derive(Debug, Clone)]
pub enum JsonValue {
    /// An object; its members follow.
    Object,
    /// An integer.
    Integer(i64),
    /// A string.
    Text(String),
    /// A number with a fraction where the text is one, else a string.
    Plain(String),
    /// A list of integers.
    Integers(Vec<i32>),
}

/// What the value of a node is.
pub enum JsonView {
    Object,
    Integer(int),
    Text(Seq<char>),
    Plain(Seq<char>),
    Integers(Seq<i32>),
}

impl View for JsonValue {
    type V = JsonView;

    open spec fn view(&self) -> JsonView {
        match *self {
            JsonValue::Object => JsonView::Object,
            JsonValue::Integer(n) => JsonView::Integer(n as int),
            JsonValue::Text(s) => JsonView::Text(s@),
            JsonValue::Plain(s) => JsonView::Plain(s@),
            JsonValue::Integers(v) => JsonView::Integers(v@),
        }
    }
}

/// The value that a cell stands for: an integer where its text is one.
pub open spec fn number_or_text(s: Seq<char>) -> JsonView {
    match decimal_number(trimmed(s)) {
        Some(n) => JsonView::Integer(n),
        None => JsonView::Plain(trimmed(s)),
    }
}

/// The value that a cell stands for, without the whitespace around it.
pub fn num_or_str(s: &str) -> (r: JsonValue)
    ensures
        r@ == number_or_text(s@),
{
    let t = trim(s);
    match parse_decimal(t.as_slice()) {
        Some(n) => JsonValue::Integer(n),
        None => JsonValue::Plain(text_of(t.as_slice())),
    }
}

/// What the members of an object are.
pub open spec fn member_views(pairs: Seq<(String, JsonValue)>) -> Seq<(Seq<char>, JsonView)> {
    pairs.map_values(|p: (String, JsonValue)| (p.0@, p.1@))
}

/// The position of a key among the members.
pub open spec fn key_at(members: Seq<(Seq<char>, JsonView)>, key: Seq<char>) -> Option<int>
    decreases members.len(),
{
    if members.len() == 0 {
        None
    } else {
        match key_at(members.drop_last(), key) {
            Some(i) => Some(i),
            None => if members.last().0 == key {
                Some(members.len() - 1)
            } else {
                None
            },
        }
    }
}

/// The members with one more: behind the others, or in the place of the one
/// with the same key.
pub open spec fn with_member(
    members: Seq<(Seq<char>, JsonView)>,
    key: Seq<char>,
    value: JsonView,
) -> Seq<(Seq<char>, JsonView)> {
    match key_at(members, key) {
        Some(i) => members.update(i, (key, value)),
        None => members.push((key, value)),
    }
}

/// The members that pairs give, one after the other.
pub open spec fn members_of(pairs: Seq<(Seq<char>, JsonView)>) -> Seq<(Seq<char>, JsonView)>
    decreases pairs.len(),
{
    if pairs.len() == 0 {
        Seq::empty()
    } else {
        with_member(members_of(pairs.drop_last()), pairs.last().0, pairs.last().1)
    }
}

proof fn key_at_found(members: Seq<(Seq<char>, JsonView)>, key: Seq<char>)
    ensures
        match key_at(members, key) {
            Some(i) => 0 <= i < members.len() && members[i].0 == key && (forall|j: int|
                0 <= j < i ==> (#[trigger] members[j]).0 != key),
            None => forall|j: int| 0 <= j < members.len() ==> (#[trigger] members[j]).0 != key,
        },
    decreases members.len(),
{
    if members.len() > 0 {
        key_at_found(members.drop_last(), key);
        assert forall|j: int| 0 <= j < members.len() - 1 implies #[trigger] members[j]
            == members.drop_last()[j] by {}
    }
}

fn find_key(members: &Vec<(String, JsonValue)>, key: &str) -> (r: Option<usize>)
    ensures
        match r {
            Some(i) => key_at(member_views(members@), key@) == Some(i as int) && i < members@.len(),
            None => key_at(member_views(members@), key@) is None,
        },
{
    let ghost all = member_views(members@);
    proof {
        key_at_found(all, key@);
    }
    for i in 0..members.len()
        invariant
            all == member_views(members@),
            match key_at(all, key@) {
                Some(k) => i <= k < all.len() && all[k].0 == key@ && (forall|j: int|
                    0 <= j < k ==> (#[trigger] all[j]).0 != key@),
                None => forall|j: int| 0 <= j < all.len() ==> (#[trigger] all[j]).0 != key@,
            },
    {
        assert(all[i as int].0 == members@[i as int].0@);
        if same_text(members[i].0.as_str(), key) {
            return Some(i);
        }
    }
    None
}

/// The members of an object in the order in which their keys first come; a
/// later value of a key takes the place of an earlier one.
pub fn object(pairs: Vec<(String, JsonValue)>) -> (r: Vec<(String, JsonValue)>)
    ensures
        member_views(r@) == members_of(member_views(pairs@)),
{
    let ghost all = member_views(pairs@);
    let mut rest = pairs;
    let mut members: Vec<(String, JsonValue)> = Vec::new();
    assert(member_views(members@) =~= Seq::<(Seq<char>, JsonView)>::empty());
    assert(all.take(0) =~= Seq::<(Seq<char>, JsonView)>::empty());
    let count: usize = rest.len();
    assert(member_views(rest@) =~= all.skip(0));
    for i in 0..count
        invariant
            count == all.len(),
            member_views(rest@) == all.skip(i as int),
            member_views(members@) == members_of(all.take(i as int)),
    {
        assert(rest@.len() == all.len() - i) by {
            assert(member_views(rest@).len() == rest@.len());
        }
        let ghost left = rest@;
        let pair = rest.remove(0);
        proof {
            assert(member_views(left)[0] == (pair.0@, pair.1@));
            assert(all.take(i + 1).drop_last() =~= all.take(i as int));
            assert(all.take(i + 1).last() == (pair.0@, pair.1@));
            assert forall|j: int| 0 <= j < rest@.len() implies #[trigger] member_views(rest@)[j]
                == all.skip(i + 1)[j] by {
                assert(rest@[j] == left[j + 1]);
                assert(member_views(left)[j + 1] == all.skip(i as int)[j + 1]);
            }
            assert(member_views(rest@) =~= all.skip(i + 1));
        }
        let ghost before = member_views(members@);
        match find_key(&members, pair.0.as_str()) {
            Some(k) => {
                members.set(k, pair);
                assert(member_views(members@) =~= with_member(
                    before,
                    all[i as int].0,
                    all[i as int].1,
                ));
            },
            None => {
                members.push(pair);
                assert(member_views(members@) =~= with_member(
                    before,
                    all[i as int].0,
                    all[i as int].1,
                ));
            },
        }
    }
    assert(all.take(all.len() as int) =~= all);
    members
}

/// Pairs with different keys keep their order.
pub proof fn distinct_keys_keep_order(pairs: Seq<(Seq<char>, JsonView)>)
    requires
        forall|i: int, j: int|
            0 <= i < j < pairs.len() ==> (#[trigger] pairs[i]).0 != (#[trigger] pairs[j]).0,
    ensures
        members_of(pairs) == pairs,
    decreases pairs.len(),
{
    if pairs.len() > 0 {
        let front = pairs.drop_last();
        assert forall|i: int, j: int| 0 <= i < j < front.len() implies (#[trigger] front[i]).0 != (
        #[trigger] front[j]).0 by {
            assert(front[i] == pairs[i] && front[j] == pairs[j]);
        }
        distinct_keys_keep_order(front);
        key_at_found(front, pairs.last().0);
        assert(key_at(front, pairs.last().0) is None) by {
            if key_at(front, pairs.last().0) is Some {
                let i = key_at(front, pairs.last().0)->0;
                assert(front[i] == pairs[i]);
                assert(pairs[i].0 != pairs[pairs.len() - 1].0);
            }
        }
        assert(front.push((pairs.last().0, pairs.last().1)) =~= pairs);
    }
}

/// One node of a row: the keys that lead to it, and its value.
#[derive(Debug, Clone)]
pub struct JsonNode {
    pub path: Vec<String>,
    pub value: JsonValue,
}

impl View for JsonNode {
    type V = (Seq<Seq<char>>, JsonView);

    open spec fn view(&self) -> (Seq<Seq<char>>, JsonView) {
        (views(self.path@), self.value@)
    }
}

/// What the nodes of a row are.
pub open spec fn node_views(nodes: Seq<JsonNode>) -> Seq<(Seq<Seq<char>>, JsonView)> {
    nodes.map_values(|n: JsonNode| n@)
}

/// The node of a member of the row's object.
pub open spec fn top(key: Seq<char>, value: JsonView) -> (Seq<Seq<char>>, JsonView) {
    (seq![key], value)
}

/// The node of a member of an object in the row's object.
pub open spec fn inner(outer: Seq<char>, key: Seq<char>, value: JsonView) -> (
    Seq<Seq<char>>,
    JsonView,
) {
    (seq![outer, key], value)
}

/// Appends the node of a member of the row's object.
pub fn push_top(nodes: &mut Vec<JsonNode>, key: &str, value: JsonValue)
    ensures
        node_views(final(nodes)@) == node_views(old(nodes)@).push(top(key@, value@)),
{
    let path = vec![String::from_str(key)];
    assert(views(path@) =~= seq![key@]);
    let node = JsonNode { path, value };
    assert(node_views(nodes@.push(node)) =~= node_views(nodes@).push(node@));
    nodes.push(node);
}

/// Appends the node of a member of an object in the row's object.
pub fn push_inner(nodes: &mut Vec<JsonNode>, outer: &str, key: &str, value: JsonValue)
    ensures
        node_views(final(nodes)@) == node_views(old(nodes)@).push(inner(outer@, key@, value@)),
{
    let path = vec![String::from_str(outer), String::from_str(key)];
    assert(views(path@) =~= seq![outer@, key@]);
    let node = JsonNode { path, value };
    assert(node_views(nodes@.push(node)) =~= node_views(nodes@).push(node@));
    nodes.push(node);
}

/// The node of a member of an object two levels below the row's object.
pub open spec fn deep(outer: Seq<char>, middle: Seq<char>, key: Seq<char>, value: JsonView) -> (
    Seq<Seq<char>>,
    JsonView,
) {
    (seq![outer, middle, key], value)
}

/// Appends the node of a member of an object two levels below the row's
/// object.
pub fn push_deep(nodes: &mut Vec<JsonNode>, outer: &str, middle: &str, key: &str, value: JsonValue)
    ensures
        node_views(final(nodes)@) == node_views(old(nodes)@).push(
            deep(outer@, middle@, key@, value@),
        ),
{
    let path = vec![String::from_str(outer), String::from_str(middle), String::from_str(key)];
    assert(views(path@) =~= seq![outer@, middle@, key@]);
    let node = JsonNode { path, value };
    assert(node_views(nodes@.push(node)) =~= node_views(nodes@).push(node@));
    nodes.push(node);
}

/// The nodes of the line header in the row's object.
pub open spec fn header_nodes(header: HeaderView, time: int) -> Seq<(Seq<Seq<char>>, JsonView)> {
    seq![
        top("header"@, JsonView::Object),
        inner("header"@, "packet_sync_code"@, number_or_text(header.packet_sync)),
        inner("header"@, "packet_id"@, JsonView::Integer(header.package_id)),
        inner("header"@, "pakcet_seq"@, JsonView::Integer(header.packet_sequence)),
        inner("header"@, "packet_data_len"@, JsonView::Integer(header.packet_data_length)),
        inner("header"@, "time"@, JsonView::Text(event_time(time))),
        inner("header"@, "data_type"@, JsonView::Text(header.data_type)),
    ]
}

/// The nodes of the line header in the row's object.
pub fn line_header_nodes(
    packet_sync: &String,
    package_id: i32,
    packet_sequence: i32,
    packet_data_length: i32,
    time: Millis,
    data_type: &String,
) -> (r: Vec<JsonNode>)
    requires
        0 <= time <= LAST_MILLIS,
    ensures
        node_views(r@) == header_nodes(
            HeaderView {
                packet_sync: packet_sync@,
                package_id: package_id as int,
                packet_sequence: packet_sequence as int,
                packet_data_length: packet_data_length as int,
                data_type: data_type@,
            },
            time as int,
        ),
{
    let mut nodes: Vec<JsonNode> = Vec::new();
    push_top(&mut nodes, "header", JsonValue::Object);
    push_inner(&mut nodes, "header", "packet_sync_code", num_or_str(packet_sync.as_str()));
    push_inner(&mut nodes, "header", "packet_id", JsonValue::Integer(package_id as i64));
    push_inner(&mut nodes, "header", "pakcet_seq", JsonValue::Integer(packet_sequence as i64));
    push_inner(
        &mut nodes,
        "header",
        "packet_data_len",
        JsonValue::Integer(packet_data_length as i64),
    );
    push_inner(&mut nodes, "header", "time", JsonValue::Text(format_event_time(time)));
    push_inner(&mut nodes, "header", "data_type", JsonValue::Text(data_type.clone()));
    assert(node_views(nodes@) =~= header_nodes(
        HeaderView {
            packet_sync: packet_sync@,
            package_id: package_id as int,
            packet_sequence: packet_sequence as int,
            packet_data_length: packet_data_length as int,
            data_type: data_type@,
        },
        time as int,
    ));
    nodes
}

/// How many of the rows the preview shows.
pub fn preview_len(rows: usize) -> (r: usize)
    ensures
        r == (if rows < 20 { rows as int } else { 20 }),
{
    if rows < PREVIEW_ROWS {
        rows
    } else {
        PREVIEW_ROWS
    }
}

} // verus!
