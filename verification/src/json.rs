//! JSON and base64: what the wire format takes from `serde_json` and
//! `base64`, with the meaning of each call stated once.

use vstd::prelude::*;

use base64::Engine;

use crate::text;

verus! {

// ---------------------------------------------------------------------------
// Reading
// ---------------------------------------------------------------------------
/// A parsed JSON document.
#[verifier::external_type_specification]
#[verifier::external_body]
pub struct ExValue(serde_json::Value);

/// What `serde_json` reports when it refuses a text or a value.
#[verifier::external_type_specification]
#[verifier::external_body]
pub struct ExJsonError(serde_json::Error);

/// What stands at one place of a document.
pub enum Node {
    Null,
    Bool(bool),
    Number,
    Text(Seq<char>),
    List,
    Object,
}

/// A document as its nodes: the node at the end of every chain of object
/// keys, the document itself at the end of the empty chain.
pub type Nodes = Map<Seq<Seq<char>>, Node>;

/// The nodes of a document.
pub uninterp spec fn nodes(v: serde_json::Value) -> Map<Seq<Seq<char>>, Node>;

/// The nodes of the document that a text spells, if it is JSON.
pub uninterp spec fn document(raw: Seq<char>) -> Option<Map<Seq<Seq<char>>, Node>>;

/// The node that a document itself is.
pub open spec fn root(doc: Nodes) -> Node {
    doc[Seq::empty()]
}

/// The part of a document under `key`; null where there is none.
pub open spec fn member(doc: Nodes, key: Seq<char>) -> Nodes {
    if doc.contains_key(seq![key]) {
        Map::new(
            |path: Seq<Seq<char>>| doc.contains_key(seq![key] + path),
            |path: Seq<Seq<char>>| doc[seq![key] + path],
        )
    } else {
        map![Seq::empty() => Node::Null]
    }
}

/// The text that a document is, if it is one.
pub open spec fn as_text(doc: Nodes) -> Option<Seq<char>> {
    match root(doc) {
        Node::Text(t) => Some(t),
        _ => None,
    }
}

/// The truth value that a document is, if it is one.
pub open spec fn as_truth(doc: Nodes) -> Option<bool> {
    match root(doc) {
        Node::Bool(b) => Some(b),
        _ => None,
    }
}

/// `serde_json::from_str` into a `Value`: the same text always gives the same
/// document, or is always refused. Which texts are JSON, and which document
/// each spells, is left to the name `document`.
#[verifier::external_body]
pub(crate) fn parse(raw: &str) -> (r: Result<serde_json::Value, serde_json::Error>)
    ensures
        r is Ok <==> document(raw@) is Some,
        r matches Ok(v) ==> document(raw@) == Some(nodes(v)),
{
    serde_json::from_str(raw)
}

/// `Value` indexed by a key: the value under that key of an object, and null
/// for a key that is absent or a value that is not an object.
#[verifier::external_body]
pub(crate) fn under<'a>(v: &'a serde_json::Value, key: &str) -> (r: &'a serde_json::Value)
    ensures
        nodes(*r) == member(nodes(*v), key@),
{
    &v[key]
}

/// `Value::as_str`: the text of a JSON string, nothing for any other value.
pub assume_specification<'a>[ serde_json::Value::as_str ](v: &'a serde_json::Value) -> (r: Option<
    &'a str,
>)
    ensures
        match r {
            Some(t) => as_text(nodes(*v)) == Some(t@),
            None => as_text(nodes(*v)) is None,
        },
;

/// `Value::as_bool`: the truth value of a JSON boolean, nothing for any other
/// value.
pub assume_specification[ serde_json::Value::as_bool ](v: &serde_json::Value) -> (r: Option<bool>)
    ensures
        r == as_truth(nodes(*v)),
;

/// `Value::is_null`: true of JSON null alone.
pub assume_specification[ serde_json::Value::is_null ](v: &serde_json::Value) -> (r: bool)
    ensures
        r == (root(nodes(*v)) is Null),
;

// ---------------------------------------------------------------------------
// Writing
// ---------------------------------------------------------------------------
/// The lower-case hexadecimal digit of `n`.
pub open spec fn hex_digit(n: int) -> char {
    if n < 10 {
        (0x30 + n) as char
    } else {
        (0x61 + n - 10) as char
    }
}

/// A character inside a JSON string.
pub open spec fn escaped(c: char) -> Seq<char> {
    let u = c as int;
    if c == '"' || c == '\\' {
        seq!['\\', c]
    } else if u == 0x08 {
        seq!['\\', 'b']
    } else if u == 0x09 {
        seq!['\\', 't']
    } else if u == 0x0A {
        seq!['\\', 'n']
    } else if u == 0x0C {
        seq!['\\', 'f']
    } else if u == 0x0D {
        seq!['\\', 'r']
    } else if u < 0x20 {
        seq!['\\', 'u', '0', '0', hex_digit(u / 16), hex_digit(u % 16)]
    } else {
        seq![c]
    }
}

/// A text inside a JSON string.
pub open spec fn escaped_text(s: Seq<char>) -> Seq<char>
    decreases s.len(),
{
    if s.len() == 0 {
        Seq::empty()
    } else {
        escaped(s[0]) + escaped_text(s.drop_first())
    }
}

/// The value of a lower-case hexadecimal digit.
pub open spec fn hex_value(c: char) -> int {
    if '0' <= c <= '9' {
        c as int - 0x30
    } else {
        c as int - 0x61 + 10
    }
}

/// The text that the inside of a JSON string spells, for the escapes that
/// `escaped` writes.
pub open spec fn unescaped(t: Seq<char>) -> Seq<char>
    decreases t.len(),
{
    if t.len() == 0 {
        Seq::empty()
    } else if t[0] != '\\' || t.len() == 1 {
        seq![t[0]] + unescaped(t.skip(1))
    } else if t[1] == 'u' && t.len() >= 6 {
        seq![(hex_value(t[4]) * 16 + hex_value(t[5])) as char] + unescaped(t.skip(6))
    } else {
        let c = if t[1] == 'b' {
            8int as char
        } else if t[1] == 't' {
            9int as char
        } else if t[1] == 'n' {
            10int as char
        } else if t[1] == 'f' {
            12int as char
        } else if t[1] == 'r' {
            13int as char
        } else {
            t[1]
        };
        seq![c] + unescaped(t.skip(2))
    }
}

proof fn lemma_escaped(c: char, rest: Seq<char>)
    ensures
        unescaped(escaped(c) + rest) == seq![c] + unescaped(rest),
{
    let head = escaped(c);
    let t = head + rest;
    let u = c as int;
    assert(t.skip(head.len() as int) =~= rest);
    assert(t[0] == head[0]);
    if head.len() == 6 {
        assert(head == seq!['\\', 'u', '0', '0', hex_digit(u / 16), hex_digit(u % 16)]);
        assert(t[1] == 'u' && t[4] == hex_digit(u / 16) && t[5] == hex_digit(u % 16));
        assert(0 <= u < 0x20);
        assert(u / 16 * 16 + u % 16 == u);
    } else if head.len() == 2 {
        assert(t[1] == head[1]);
    }
}

/// A JSON string is a faithful spelling: undoing the escapes gives the text.
pub proof fn law_json_text_round_trips(s: Seq<char>)
    ensures
        unescaped(escaped_text(s)) == s,
    decreases s.len(),
{
    if s.len() == 0 {
        assert(unescaped(escaped_text(s)) =~= s);
    } else {
        lemma_escaped(s[0], escaped_text(s.drop_first()));
        law_json_text_round_trips(s.drop_first());
        assert(seq![s[0]] + s.drop_first() =~= s);
    }
}

/// A text as a JSON string.
pub open spec fn quoted(s: Seq<char>) -> Seq<char> {
    seq!['"'] + escaped_text(s) + seq!['"']
}

/// Texts as JSON strings with commas between them.
pub open spec fn quoted_list(items: Seq<Seq<char>>) -> Seq<char>
    decreases items.len(),
{
    if items.len() == 0 {
        Seq::empty()
    } else if items.len() == 1 {
        quoted(items[0])
    } else {
        quoted_list(items.drop_last()) + seq![','] + quoted(items.last())
    }
}

/// Texts as a JSON array of strings, without whitespace.
pub open spec fn string_array(items: Seq<Seq<char>>) -> Seq<char> {
    seq!['['] + quoted_list(items) + seq![']']
}

/// How long the inside of a JSON string is that starts here: up to the first
/// quote that no backslash stands before.
pub open spec fn inside_len(t: Seq<char>) -> nat
    decreases t.len(),
{
    if t.len() == 0 || t[0] == '"' {
        0
    } else if t[0] == '\\' && t.len() >= 2 {
        2 + inside_len(t.skip(2))
    } else {
        1 + inside_len(t.skip(1))
    }
}

proof fn lemma_inside_of_escape(c: char, rest: Seq<char>)
    ensures
        inside_len(escaped(c) + rest) == escaped(c).len() + inside_len(rest),
{
    reveal_with_fuel(inside_len, 6);
    let head = escaped(c);
    let t = head + rest;
    let u = c as int;
    assert(t[0] == head[0]);
    if head.len() == 6 {
        assert(head == seq!['\\', 'u', '0', '0', hex_digit(u / 16), hex_digit(u % 16)]);
        assert(0 <= u < 0x20);
        let a = t.skip(2);
        assert(a =~= seq!['0', '0', hex_digit(u / 16), hex_digit(u % 16)] + rest);
        assert(a.skip(1) =~= seq!['0', hex_digit(u / 16), hex_digit(u % 16)] + rest);
        assert(a.skip(1).skip(1) =~= seq![hex_digit(u / 16), hex_digit(u % 16)] + rest);
        assert(a.skip(1).skip(1).skip(1) =~= seq![hex_digit(u % 16)] + rest);
        assert(a.skip(1).skip(1).skip(1).skip(1) =~= rest);
    } else {
        assert(t.skip(head.len() as int) =~= rest);
    }
}

proof fn lemma_inside_of_text(s: Seq<char>, rest: Seq<char>)
    ensures
        inside_len(escaped_text(s) + seq!['"'] + rest) == escaped_text(s).len(),
    decreases s.len(),
{
    if s.len() > 0 {
        let tail = escaped_text(s.drop_first());
        lemma_inside_of_text(s.drop_first(), rest);
        lemma_inside_of_escape(s[0], tail + seq!['"'] + rest);
        assert(escaped_text(s) + seq!['"'] + rest =~= escaped(s[0]) + (tail + seq!['"'] + rest));
    }
}

/// A list of JSON strings, seen from its front.
proof fn lemma_list_front(items: Seq<Seq<char>>)
    requires
        items.len() >= 2,
    ensures
        quoted_list(items) == quoted(items[0]) + seq![','] + quoted_list(items.drop_first()),
    decreases items.len(),
{
    let front = items.drop_last();
    let rest = items.drop_first();
    if items.len() == 2 {
        assert(quoted_list(front) == quoted(items[0]));
        assert(quoted_list(rest) == quoted(items[1]));
    } else {
        lemma_list_front(front);
        assert(front.drop_first() =~= rest.drop_last());
        assert(quoted_list(items) =~= quoted(items[0]) + seq![','] + (quoted_list(rest.drop_last())
            + seq![','] + quoted(rest.last())));
    }
}

/// A JSON document of texts, arrays and objects.
pub enum Tree {
    Text(Seq<char>),
    List(Seq<Tree>),
    /// The members in their order.
    Object(Seq<(Seq<char>, Tree)>),
}

/// The compact spelling of a document.
pub open spec fn written(tree: Tree) -> Seq<char>
    decreases tree,
{
    match tree {
        Tree::Text(s) => quoted(s),
        Tree::List(items) => seq!['['] + written_items(items) + seq![']'],
        Tree::Object(members) => seq!['{'] + written_members(members) + seq!['}'],
    }
}

/// The items of an array with commas between them.
pub open spec fn written_items(items: Seq<Tree>) -> Seq<char>
    decreases items,
{
    if items.len() == 0 {
        Seq::empty()
    } else if items.len() == 1 {
        written(items[0])
    } else {
        written(items[0]) + seq![','] + written_items(items.drop_first())
    }
}

/// The members of an object with commas between them.
pub open spec fn written_members(members: Seq<(Seq<char>, Tree)>) -> Seq<char>
    decreases members,
{
    if members.len() == 0 {
        Seq::empty()
    } else if members.len() == 1 {
        quoted(members[0].0) + seq![':'] + written(members[0].1)
    } else {
        quoted(members[0].0) + seq![':'] + written(members[0].1) + seq![','] + written_members(
            members.drop_first(),
        )
    }
}

/// The document that a text begins with, and how many characters it takes.
pub open spec fn read(t: Seq<char>) -> Option<(Tree, int)>
    decreases t.len(), 0int,
{
    if t.len() < 2 {
        None
    } else if t[0] == '"' {
        let n = inside_len(t.skip(1)) as int;
        if n + 2 <= t.len() {
            Some((Tree::Text(unescaped(t.skip(1).take(n))), n + 2))
        } else {
            None
        }
    } else if t[0] == '[' {
        if t[1] == ']' {
            Some((Tree::List(Seq::empty()), 2))
        } else {
            match read_items(t.skip(1)) {
                Some((items, n)) => Some((Tree::List(items), n + 1)),
                None => None,
            }
        }
    } else if t[0] == '{' {
        if t[1] == '}' {
            Some((Tree::Object(Seq::empty()), 2))
        } else {
            match read_members(t.skip(1)) {
                Some((members, n)) => Some((Tree::Object(members), n + 1)),
                None => None,
            }
        }
    } else {
        None
    }
}

/// The items of an array from here on, and how many characters they take up to
/// and with the closing bracket.
pub open spec fn read_items(t: Seq<char>) -> Option<(Seq<Tree>, int)>
    decreases t.len(), 1int,
{
    match read(t) {
        Some((item, n)) => if !(0 < n < t.len()) {
            None
        } else if t[n] == ']' {
            Some((seq![item], n + 1))
        } else if t[n] == ',' {
            match read_items(t.skip(n + 1)) {
                Some((items, m)) => Some((seq![item] + items, n + 1 + m)),
                None => None,
            }
        } else {
            None
        },
        None => None,
    }
}

/// The members of an object from here on, and how many characters they take up
/// to and with the closing brace.
pub open spec fn read_members(t: Seq<char>) -> Option<(Seq<(Seq<char>, Tree)>, int)>
    decreases t.len(), 1int,
{
    let k = inside_len(t.skip(1)) as int;
    if t.len() == 0 || t[0] != '"' || k + 3 > t.len() || t[k + 2] != ':' {
        None
    } else {
        let key = unescaped(t.skip(1).take(k));
        match read(t.skip(k + 3)) {
            Some((value, n)) => if !(0 < n && k + 3 + n < t.len()) {
                None
            } else if t[k + 3 + n] == '}' {
                Some((seq![(key, value)], k + 3 + n + 1))
            } else if t[k + 3 + n] == ',' {
                match read_members(t.skip(k + 3 + n + 1)) {
                    Some((members, m)) => Some(
                        (seq![(key, value)] + members, k + 3 + n + 1 + m),
                    ),
                    None => None,
                }
            } else {
                None
            },
            None => None,
        }
    }
}

/// The compact spelling is faithful: whatever follows it, reading gives the
/// document back and takes exactly its characters.
pub proof fn law_json_round_trips(tree: Tree, rest: Seq<char>)
    ensures
        read(written(tree) + rest) == Some((tree, written(tree).len() as int)),
    decreases tree, 0int,
{
    let t = written(tree) + rest;
    match tree {
        Tree::Text(s) => {
            let x = escaped_text(s);
            assert(t.skip(1) =~= x + seq!['"'] + rest);
            lemma_inside_of_text(s, rest);
            assert(t.skip(1).take(x.len() as int) =~= x);
            law_json_text_round_trips(s);
        },
        Tree::List(items) => {
            if items.len() > 0 {
                lemma_read_items(items, rest);
                assert(t.skip(1) =~= written_items(items) + seq![']'] + rest);
                lemma_starts(items[0]);
                assert(t[1] == written(items[0])[0]);
            } else {
                assert(items =~= Seq::empty());
            }
        },
        Tree::Object(members) => {
            if members.len() > 0 {
                lemma_read_members(members, rest);
                assert(t.skip(1) =~= written_members(members) + seq!['}'] + rest);
                assert(quoted(members[0].0)[0] == '"');
                assert(t[1] == '"');
            } else {
                assert(members =~= Seq::empty());
            }
        },
    }
}

proof fn lemma_starts(tree: Tree)
    ensures
        written(tree).len() >= 2,
        written(tree)[0] == '"' || written(tree)[0] == '[' || written(tree)[0] == '{',
{
}

proof fn lemma_read_items(items: Seq<Tree>, rest: Seq<char>)
    requires
        items.len() > 0,
    ensures
        read_items(written_items(items) + seq![']'] + rest) == Some(
            (items, written_items(items).len() + 1int),
        ),
    decreases items, 1int,
{
    let t = written_items(items) + seq![']'] + rest;
    let n = written(items[0]).len() as int;
    lemma_starts(items[0]);
    if items.len() == 1 {
        law_json_round_trips(items[0], seq![']'] + rest);
        assert(t =~= written(items[0]) + (seq![']'] + rest));
        assert(seq![items[0]] =~= items);
    } else {
        let tail = written_items(items.drop_first()) + seq![']'] + rest;
        law_json_round_trips(items[0], seq![','] + tail);
        assert(t =~= written(items[0]) + (seq![','] + tail));
        assert(t.skip(n + 1) =~= tail);
        lemma_read_items(items.drop_first(), rest);
        assert(seq![items[0]] + items.drop_first() =~= items);
    }
}

proof fn lemma_read_members(members: Seq<(Seq<char>, Tree)>, rest: Seq<char>)
    requires
        members.len() > 0,
    ensures
        read_members(written_members(members) + seq!['}'] + rest) == Some(
            (members, written_members(members).len() + 1int),
        ),
    decreases members, 1int,
{
    let t = written_members(members) + seq!['}'] + rest;
    let key = members[0].0;
    let value = members[0].1;
    let x = escaped_text(key);
    let k = x.len() as int;
    let n = written(value).len() as int;
    lemma_starts(value);
    let tail = if members.len() == 1 {
        seq!['}'] + rest
    } else {
        seq![','] + (written_members(members.drop_first()) + seq!['}'] + rest)
    };
    assert(t =~= seq!['"'] + x + seq!['"'] + seq![':'] + (written(value) + tail));
    let after_key = seq![':'] + (written(value) + tail);
    assert(t.skip(1) =~= x + seq!['"'] + after_key);
    lemma_inside_of_text(key, after_key);
    assert(t.skip(1).take(k) =~= x);
    law_json_text_round_trips(key);
    assert(t[k + 2] == ':');
    assert(t.skip(k + 3) =~= written(value) + tail);
    law_json_round_trips(value, tail);
    assert(t[k + 3 + n] == tail[0]);
    if members.len() == 1 {
        assert(seq![(key, value)] =~= members);
    } else {
        assert(t.skip(k + 3 + n + 1) =~= written_members(members.drop_first()) + seq!['}']
            + rest);
        lemma_read_members(members.drop_first(), rest);
        assert(seq![(key, value)] + members.drop_first() =~= members);
    }
}

/// Texts as documents.
pub open spec fn texts(items: Seq<Seq<char>>) -> Seq<Tree> {
    items.map_values(|s: Seq<char>| Tree::Text(s))
}

/// Texts that are the same as documents are the same.
pub proof fn lemma_texts_tell_apart(a: Seq<Seq<char>>, b: Seq<Seq<char>>)
    requires
        texts(a) == texts(b),
    ensures
        a == b,
{
    assert(a.len() == texts(a).len() && b.len() == texts(b).len());
    assert forall|i: int| 0 <= i < a.len() implies a[i] == b[i] by {
        assert(texts(a)[i] == Tree::Text(a[i]));
        assert(texts(b)[i] == Tree::Text(b[i]));
    }
    assert(a =~= b);
}

/// A JSON array of strings is the spelling of a list of texts.
pub proof fn lemma_string_array_is_written(items: Seq<Seq<char>>)
    ensures
        written(Tree::List(texts(items))) == string_array(items),
{
    lemma_list_is_written(items);
}

proof fn lemma_list_is_written(items: Seq<Seq<char>>)
    ensures
        written_items(texts(items)) == quoted_list(items),
    decreases items.len(),
{
    let trees = texts(items);
    if items.len() == 0 {
        assert(written_items(trees) =~= quoted_list(items));
    } else {
        assert(trees[0] == Tree::Text(items[0]));
        assert(written(trees[0]) == quoted(items[0]));
        if items.len() >= 2 {
            lemma_list_front(items);
            lemma_list_is_written(items.drop_first());
            assert(trees.drop_first() =~= texts(items.drop_first()));
            assert(written_items(trees) == written(trees[0]) + seq![','] + written_items(
                trees.drop_first(),
            ));
        }
    }
}

/// A text in which nothing is to be escaped.
pub open spec fn plain(s: Seq<char>) -> bool {
    forall|i: int| 0 <= i < s.len() ==> escaped(#[trigger] s[i]) == seq![s[i]]
}

pub proof fn lemma_plain_text(s: Seq<char>)
    requires
        plain(s),
    ensures
        escaped_text(s) == s,
    decreases s.len(),
{
    if s.len() > 0 {
        let t = s.drop_first();
        assert forall|i: int| 0 <= i < t.len() implies escaped(#[trigger] t[i]) == seq![t[i]] by {
            assert(t[i] == s[i + 1]);
        }
        lemma_plain_text(t);
        assert(seq![s[0]] + t =~= s);
    }
}

/// A text in which nothing is to be escaped stands in quotes as it is.
pub proof fn lemma_plain_quoted(s: Seq<char>)
    requires
        plain(s),
    ensures
        quoted(s) == seq!['"'] + s + seq!['"'],
{
    lemma_plain_text(s);
}

pub proof fn lemma_one_member(a: (Seq<char>, Tree))
    ensures
        written(Tree::Object(seq![a])) == seq!['{'] + quoted(a.0) + seq![':'] + written(a.1)
            + seq!['}'],
{
    let members = seq![a];
    assert(written_members(members) == quoted(a.0) + seq![':'] + written(a.1));
    assert(written(Tree::Object(members)) =~= seq!['{'] + quoted(a.0) + seq![':'] + written(a.1)
        + seq!['}']);
}

pub proof fn lemma_two_members(a: (Seq<char>, Tree), b: (Seq<char>, Tree))
    ensures
        written(Tree::Object(seq![a, b])) == seq!['{'] + quoted(a.0) + seq![':'] + written(a.1)
            + seq![','] + quoted(b.0) + seq![':'] + written(b.1) + seq!['}'],
{
    let members = seq![a, b];
    assert(members.drop_first() =~= seq![b]);
    assert(written_members(seq![b]) == quoted(b.0) + seq![':'] + written(b.1));
    assert(written(Tree::Object(members)) =~= seq!['{'] + quoted(a.0) + seq![':'] + written(a.1)
        + seq![','] + quoted(b.0) + seq![':'] + written(b.1) + seq!['}']);
}

pub proof fn lemma_three_members(
    a: (Seq<char>, Tree),
    b: (Seq<char>, Tree),
    c: (Seq<char>, Tree),
)
    ensures
        written(Tree::Object(seq![a, b, c])) == seq!['{'] + quoted(a.0) + seq![':'] + written(a.1)
            + seq![','] + quoted(b.0) + seq![':'] + written(b.1) + seq![','] + quoted(c.0)
            + seq![':'] + written(c.1) + seq!['}'],
{
    let members = seq![a, b, c];
    let two = seq![b, c];
    assert(members.drop_first() =~= two);
    assert(two.drop_first() =~= seq![c]);
    assert(written_members(seq![c]) == quoted(c.0) + seq![':'] + written(c.1));
    assert(written_members(two) == quoted(b.0) + seq![':'] + written(b.1) + seq![',']
        + written_members(seq![c]));
    assert(written(Tree::Object(members)) =~= seq!['{'] + quoted(a.0) + seq![':'] + written(a.1)
        + seq![','] + quoted(b.0) + seq![':'] + written(b.1) + seq![','] + quoted(c.0) + seq![':']
        + written(c.1) + seq!['}']);
}

/// `serde_json::to_string` on a list of strings: a compact JSON array. It
/// fails only where a `Serialize` impl does or a map has keys that are not
/// strings, so it does not fail here. `"` and `\` are escaped by a backslash,
/// the control characters below 0x20 by their short form or as `\u00xx`, and
/// every other character stands for itself.
#[verifier::external_body]
pub(crate) fn write_strings(items: &[String]) -> (r: Result<String, serde_json::Error>)
    ensures
        r is Ok,
        r matches Ok(s) ==> s@ == string_array(text::views(items@)),
{
    serde_json::to_string(items)
}

// ---------------------------------------------------------------------------
// Base64
// ---------------------------------------------------------------------------
/// The character of a six-bit value in the standard alphabet.
pub open spec fn sextet(v: int) -> char {
    if v < 26 {
        (0x41 + v) as char
    } else if v < 52 {
        (0x61 + v - 26) as char
    } else if v < 62 {
        (0x30 + v - 52) as char
    } else if v == 62 {
        '+'
    } else {
        '/'
    }
}

/// Standard base64 with padding: three bytes become four characters.
pub open spec fn base64_text(b: Seq<u8>) -> Seq<char>
    decreases b.len(),
{
    let x = b[0] as int;
    let y = b[1] as int;
    let z = b[2] as int;
    if b.len() == 0 {
        Seq::empty()
    } else if b.len() == 1 {
        seq![sextet(x / 4), sextet(x % 4 * 16), '=', '=']
    } else if b.len() == 2 {
        seq![sextet(x / 4), sextet(x % 4 * 16 + y / 16), sextet(y % 16 * 4), '=']
    } else {
        seq![
            sextet(x / 4),
            sextet(x % 4 * 16 + y / 16),
            sextet(y % 16 * 4 + z / 64),
            sextet(z % 64),
        ] + base64_text(b.skip(3))
    }
}

/// `Engine::encode_string` of the `STANDARD` engine: appends the base64 text
/// of `bytes` (RFC 4648, standard alphabet, padded) to `buf`. The bound keeps
/// the string below the size at which its allocation would panic.
#[verifier::external_body]
pub(crate) fn append_base64(bytes: &[u8], buf: &mut String)
    requires
        4 * old(buf)@.len() + 4 * ((bytes@.len() + 2) / 3) <= isize::MAX,
    ensures
        final(buf)@ == old(buf)@ + base64_text(bytes@),
{
    base64::engine::general_purpose::STANDARD.encode_string(bytes, buf)
}

/// The six-bit value of a character of the standard alphabet.
pub open spec fn sextet_value(c: char) -> int {
    if 'A' <= c <= 'Z' {
        c as int - 0x41
    } else if 'a' <= c <= 'z' {
        c as int - 0x61 + 26
    } else if '0' <= c <= '9' {
        c as int - 0x30 + 52
    } else if c == '+' {
        62
    } else {
        63
    }
}

/// The bytes that a padded base64 text spells.
pub open spec fn base64_bytes(t: Seq<char>) -> Seq<u8>
    decreases t.len(),
{
    let p = sextet_value(t[0]);
    let q = sextet_value(t[1]);
    let r = sextet_value(t[2]);
    let s = sextet_value(t[3]);
    if t.len() < 4 {
        Seq::empty()
    } else if t[2] == '=' {
        seq![(p * 4 + q / 16) as u8]
    } else if t[3] == '=' {
        seq![(p * 4 + q / 16) as u8, (q % 16 * 16 + r / 4) as u8]
    } else {
        seq![
            (p * 4 + q / 16) as u8,
            (q % 16 * 16 + r / 4) as u8,
            (r % 4 * 64 + s) as u8,
        ] + base64_bytes(t.skip(4))
    }
}

proof fn lemma_sextet(v: int)
    requires
        0 <= v < 64,
    ensures
        sextet_value(sextet(v)) == v,
        sextet(v) != '=',
        sextet(v) != '"',
        sextet(v) != '\\',
{
}

/// Base64 is a faithful spelling: reading the text back gives the bytes.
pub proof fn law_base64_round_trips(b: Seq<u8>)
    ensures
        base64_bytes(base64_text(b)) == b,
        base64_text(b).len() == 4 * ((b.len() + 2) / 3),
    decreases b.len(),
{
    let t = base64_text(b);
    if b.len() == 0 {
        assert(base64_bytes(t) =~= b);
    } else {
        let x = b[0] as int;
        lemma_sextet(x / 4);
        if b.len() == 1 {
            lemma_sextet(x % 4 * 16);
            assert(base64_bytes(t) =~= b);
        } else {
            let y = b[1] as int;
            lemma_sextet(x % 4 * 16 + y / 16);
            if b.len() == 2 {
                lemma_sextet(y % 16 * 4);
                assert(base64_bytes(t) =~= b);
            } else {
                let z = b[2] as int;
                lemma_sextet(y % 16 * 4 + z / 64);
                lemma_sextet(z % 64);
                law_base64_round_trips(b.skip(3));
                assert(t.skip(4) =~= base64_text(b.skip(3)));
                assert(base64_bytes(t) =~= b);
            }
        }
    }
}

/// Base64 text needs no escape inside a JSON string.
pub proof fn law_base64_needs_no_escape(b: Seq<u8>, i: int)
    requires
        0 <= i < base64_text(b).len(),
    ensures
        escaped(base64_text(b)[i]) == seq![base64_text(b)[i]],
    decreases b.len(),
{
    let t = base64_text(b);
    if b.len() >= 3 {
        if i >= 4 {
            law_base64_needs_no_escape(b.skip(3), i - 4);
            assert(t[i] == base64_text(b.skip(3))[i - 4]);
        }
    }
}

// ---------------------------------------------------------------------------
// What the spellings promise
// ---------------------------------------------------------------------------
/// Inside a JSON string, a quote and a backslash stand behind a backslash, a
/// control character is told by its letter or its two hexadecimal digits, and
/// every other character stands for itself.
pub proof fn law_characters_are_escaped(c: char)
    ensures
        c == '"' ==> escaped(c) =~= seq!['\\', '"'],
        c == '\\' ==> escaped(c) =~= seq!['\\', '\\'],
        c as int == 8 ==> escaped(c) =~= seq!['\\', 'b'],
        c as int == 9 ==> escaped(c) =~= seq!['\\', 't'],
        c as int == 10 ==> escaped(c) =~= seq!['\\', 'n'],
        c as int == 12 ==> escaped(c) =~= seq!['\\', 'f'],
        c as int == 13 ==> escaped(c) =~= seq!['\\', 'r'],
        (c as int) < 32 && escaped(c).len() != 2 ==> {
            &&& escaped(c).len() == 6
            &&& escaped(c).take(4) =~= seq!['\\', 'u', '0', '0']
            &&& escaped(c)[4] == (if c as int >= 16 {
                '1'
            } else {
                '0'
            })
            &&& c as int % 16 < 10 ==> escaped(c)[5] as int == '0' as int + c as int % 16
            &&& c as int % 16 >= 10 ==> escaped(c)[5] as int == 'a' as int + (c as int % 16 - 10)
        },
        c as int >= 32 && c != '"' && c != '\\' ==> escaped(c) =~= seq![c],
{
}

/// A text is escaped character by character and stands between two quotes.
pub proof fn law_texts_are_quoted(a: Seq<char>, b: Seq<char>, c: char)
    ensures
        escaped_text(a + b) == escaped_text(a) + escaped_text(b),
        escaped_text(seq![c]) == escaped(c),
        escaped_text(Seq::empty()) == Seq::<char>::empty(),
        quoted(a) == seq!['"'] + escaped_text(a) + seq!['"'],
    decreases a.len(),
{
    let one = seq![c];
    assert(one.drop_first() =~= Seq::empty());
    assert(escaped_text(one.drop_first()) =~= Seq::empty());
    assert(escaped(c) + Seq::<char>::empty() =~= escaped(c));
    if a.len() == 0 {
        assert(a + b =~= b);
        assert(escaped_text(a) + escaped_text(b) =~= escaped_text(b));
    } else {
        law_texts_are_quoted(a.drop_first(), b, c);
        assert((a + b).drop_first() =~= a.drop_first() + b);
        assert(escaped_text(a + b) =~= escaped_text(a) + escaped_text(b));
    }
}

/// An array holds the quoted texts of all its items, in order, with a comma
/// between neighbours, between two brackets.
pub proof fn law_arrays_list_their_items(items: Seq<Seq<char>>, s: Seq<char>)
    ensures
        string_array(Seq::empty()) =~= seq!['[', ']'],
        string_array(seq![s]) =~= seq!['['] + quoted(s) + seq![']'],
        items.len() > 0 ==> string_array(items.push(s)) =~= string_array(items).drop_last() + seq![
            ',',
        ] + quoted(s) + seq![']'],
{
    assert(items.push(s).drop_last() =~= items);
}

/// The alphabet of base64: capitals, small letters, digits, plus and slash.
pub proof fn law_alphabet(v: int)
    requires
        0 <= v < 64,
    ensures
        v < 26 ==> sextet(v) as int == 'A' as int + v,
        26 <= v < 52 ==> sextet(v) as int == 'a' as int + (v - 26),
        52 <= v < 62 ==> sextet(v) as int == '0' as int + (v - 52),
        v == 62 ==> sextet(v) == '+',
        v == 63 ==> sextet(v) == '/',
{
}

/// The digits of six bits of a number of three bytes.
proof fn lemma_digits(x: int, y: int, z: int)
    requires
        0 <= x < 256,
        0 <= y < 256,
        0 <= z < 256,
    ensures
        ({
            let n = 65_536 * x + 256 * y + z;
            &&& n / 262_144 == x / 4
            &&& n / 4_096 % 64 == x % 4 * 16 + y / 16
            &&& n / 64 % 64 == y % 16 * 4 + z / 64
            &&& n % 64 == z % 64
        }),
{
    let n = 65_536 * x + 256 * y + z;
    let p = x / 4;
    let q = x % 4 * 16 + y / 16;
    let r = y % 16 * 4 + z / 64;
    let s = z % 64;
    assert(n == 262_144 * p + 4_096 * q + 64 * r + s);
    assert(0 <= q < 64 && 0 <= r < 64 && 0 <= s < 64);
    assert(n / 64 == 4_096 * p + 64 * q + r);
    assert(n / 4_096 == 64 * p + q);
    assert(n / 262_144 == p);
}

/// Base64 spells three bytes, taken as one number, high byte first, as its four
/// digits of six bits; one or two bytes at the end are filled up with zeros and
/// marked with as many equals signs as bytes are missing.
pub proof fn law_three_bytes_are_four_digits(x: u8, y: u8, z: u8)
    ensures
        ({
            let n = 65_536 * x + 256 * y + z;
            base64_text(seq![x, y, z]) =~= seq![
                sextet(n / 262_144),
                sextet(n / 4_096 % 64),
                sextet(n / 64 % 64),
                sextet(n % 64),
            ]
        }),
        ({
            let n = 65_536 * x + 256 * y;
            base64_text(seq![x, y]) =~= seq![
                sextet(n / 262_144),
                sextet(n / 4_096 % 64),
                sextet(n / 64 % 64),
                '=',
            ]
        }),
        ({
            let n = 65_536 * x;
            base64_text(seq![x]) =~= seq![
                sextet(n / 262_144),
                sextet(n / 4_096 % 64),
                '=',
                '=',
            ]
        }),
{
    lemma_digits(x as int, y as int, z as int);
    lemma_digits(x as int, y as int, 0);
    lemma_digits(x as int, 0, 0);
    let three = seq![x, y, z];
    assert(three.skip(3) =~= Seq::<u8>::empty());
    assert(base64_text(three.skip(3)) =~= Seq::empty());
}

/// Base64 of a stretch of whole groups, followed by that of the rest, is base64
/// of both.
pub proof fn law_base64_composes(a: Seq<u8>, b: Seq<u8>)
    requires
        a.len() % 3 == 0,
    ensures
        base64_text(a + b) == base64_text(a) + base64_text(b),
        base64_text(Seq::empty()) == Seq::<char>::empty(),
    decreases a.len(),
{
    if a.len() == 0 {
        assert(a + b =~= b);
        assert(base64_text(a) + base64_text(b) =~= base64_text(b));
    } else {
        law_base64_composes(a.skip(3), b);
        assert((a + b).skip(3) =~= a.skip(3) + b);
        assert(base64_text(a + b) =~= base64_text(a) + base64_text(b));
    }
}

} // verus!
