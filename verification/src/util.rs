//! The JSON form in which PipeWire's metadata holds node names.

use vstd::prelude::*;

use crate::text;

verus! {

/// The key of the field that holds the name, with its quotes.
pub open spec fn name_key() -> Seq<char> {
    seq!['"', 'n', 'a', 'm', 'e', '"']
}

/// The text between the first two double quotes of `s`.
pub open spec fn first_quoted(s: Seq<char>) -> Option<Seq<char>> {
    match text::found(s, seq!['"']) {
        Some(open) => {
            let rest = s.skip(open + 1);
            match text::found(rest, seq!['"']) {
                Some(close) => Some(rest.take(close)),
                None => None,
            }
        },
        None => None,
    }
}

/// Whether a piece of text stands between braces, white space around them aside.
pub open spec fn is_braced(raw: Seq<char>) -> bool {
    let t = text::trimmed(raw);
    t.len() >= 2 && t.first() == '{' && t.last() == '}'
}

/// The name that a JSON object of the form `{"name":"..."}` holds: the text must stand between
/// braces, white space around them aside, and the name is the first quoted text after the first
/// colon that follows the first `"name"`.
pub open spec fn name_field(raw: Seq<char>) -> Option<Seq<char>> {
    let t = text::trimmed(raw);
    if !is_braced(raw) {
        None
    } else {
        match text::found(t, name_key()) {
            Some(key) => {
                let after = t.skip(key + name_key().len());
                match text::found(after, seq![':']) {
                    Some(colon) => first_quoted(after.skip(colon + 1)),
                    None => None,
                }
            },
            None => None,
        }
    }
}

/// The part of `s` that follows the `n` characters at position `at`.
fn tail(s: &str, at: usize, n: usize) -> (r: &str)
    requires
        at + n <= s@.len(),
    ensures
        r@ == s@.skip(at + n),
{
    let len = s.unicode_len();
    let r = s.substring_char(at + n, len);
    assert(r@ =~= s@.skip(at + n));
    r
}

/// Extracts the `name` field from a `{"name":"..."}` JSON blob, the shape PipeWire stores in
/// `default.audio.sink` and `default.audio.source`, and that some clients write into a stream's
/// `target.object`. A string without its opening or its closing brace is rejected.
pub fn parse_name_json(raw: &str) -> (r: Option<&str>)
    ensures
        text::opt_str(r) == name_field(raw@),
{
    proof {
        reveal_strlit("\"name\"");
        reveal_strlit(":");
        reveal_strlit("\"");
        assert("\"name\""@ =~= name_key());
        assert(":"@ =~= seq![':']);
        assert("\""@ =~= seq!['"']);
    }
    let t = text::trim(raw);
    let len = t.unicode_len();
    if len < 2 || t.get_char(0) != '{' || t.get_char(len - 1) != '}' {
        return None;
    }
    let key = match text::find(t, "\"name\"") {
        Some(i) => i,
        None => return None,
    };
    proof {
        text::lemma_found(t@, name_key());
    }
    let after = tail(t, key, 6);
    let colon = match text::find(after, ":") {
        Some(i) => i,
        None => return None,
    };
    proof {
        text::lemma_found(after@, seq![':']);
    }
    let value = tail(after, colon, 1);
    let open = match text::find(value, "\"") {
        Some(i) => i,
        None => return None,
    };
    proof {
        text::lemma_found(value@, seq!['"']);
    }
    let rest = tail(value, open, 1);
    let close = match text::find(rest, "\"") {
        Some(i) => i,
        None => return None,
    };
    proof {
        text::lemma_found(rest@, seq!['"']);
    }
    let r = rest.substring_char(0, close);
    assert(r@ =~= rest@.take(close as int));
    Some(r)
}

/// The form of `c` inside a JSON string literal.
pub open spec fn escaped_char(c: char) -> Seq<char> {
    if c == '\\' {
        seq!['\\', '\\']
    } else if c == '"' {
        seq!['\\', '"']
    } else {
        seq![c]
    }
}

/// `s` with a backslash before every backslash and every double quote.
pub open spec fn escaped(s: Seq<char>) -> Seq<char>
    decreases s.len(),
{
    if s.len() == 0 {
        Seq::empty()
    } else {
        escaped(s.drop_last()) + escaped_char(s.last())
    }
}

/// Escapes a string for inclusion in a JSON string literal. Only the backslash and double-quote
/// escapes are required for PipeWire node names, which never contain control characters.
pub fn json_escape(s: &str) -> (r: String)
    ensures
        r@ == escaped(s@),
{
    let chars = text::chars_of(s);
    let mut out = String::new();
    proof {
        reveal_strlit("\\\\");
        reveal_strlit("\\\"");
        assert("\\\\"@ =~= seq!['\\', '\\']);
        assert("\\\""@ =~= seq!['\\', '"']);
        assert(s@.take(0) =~= Seq::<char>::empty());
    }
    let mut i: usize = 0;
    while i < chars.len()
        invariant
            chars@ == s@,
            i <= s@.len(),
            out@ == escaped(s@.take(i as int)),
            "\\\\"@ == seq!['\\', '\\'],
            "\\\""@ == seq!['\\', '"'],
        decreases s@.len() - i,
    {
        let c = chars[i];
        if c == '\\' {
            out.append("\\\\");
        } else if c == '"' {
            out.append("\\\"");
        } else {
            let one = s.substring_char(i, i + 1);
            assert(one@ =~= seq![c]);
            out.append(one);
        }
        assert(s@.take(i + 1).drop_last() =~= s@.take(i as int));
        i += 1;
    }
    assert(s@.take(s@.len() as int) =~= s@);
    out
}

/// The metadata value that names the node `name`.
pub open spec fn name_object(name: Seq<char>) -> Seq<char> {
    seq!['{', '"', 'n', 'a', 'm', 'e', '"', ':', '"'] + escaped(name) + seq!['"', '}']
}

/// Writes the metadata value that names a node: JSON like `{"name":"..."}`.
pub fn name_json(name: &str) -> (r: String)
    ensures
        r@ == name_object(name@),
{
    let inner = json_escape(name);
    let mut out = String::new();
    proof {
        reveal_strlit("{\"name\":\"");
        reveal_strlit("\"}");
    }
    out.append("{\"name\":\"");
    out.append(inner.as_str());
    out.append("\"}");
    assert(out@ =~= name_object(name@));
    out
}

proof fn lemma_escaped_plain(s: Seq<char>)
    requires
        !s.contains('"'),
    ensures
        !escaped(s).contains('"'),
        !s.contains('\\') ==> escaped(s) == s,
    decreases s.len(),
{
    if s.len() > 0 {
        let t = s.drop_last();
        assert(s[s.len() - 1] == s.last());
        assert(forall|i: int| 0 <= i < t.len() ==> t[i] == s[i]);
        lemma_escaped_plain(t);
        let last = escaped_char(s.last());
        assert(!last.contains('"'));
        assert forall|i: int| 0 <= i < escaped(s).len() implies escaped(s)[i] != '"' by {
            if i < escaped(t).len() {
                assert(escaped(s)[i] == escaped(t)[i]);
                assert(escaped(t).contains(escaped(t)[i]));
            } else {
                assert(escaped(s)[i] == last[i - escaped(t).len()]);
                assert(last.contains(last[i - escaped(t).len()]));
            }
        }
        if !s.contains('\\') {
            assert(escaped(s) =~= s);
        }
    }
}

/// What is written to name a node is read back as its escaped name, and as the name itself when
/// that holds no backslash. A name that holds a double quote is not read back whole.
pub proof fn lemma_name_round_trip(name: Seq<char>)
    requires
        !name.contains('"'),
    ensures
        name_field(name_object(name)) == Some(escaped(name)),
        !name.contains('\\') ==> name_field(name_object(name)) == Some(name),
{
    lemma_escaped_plain(name);
    let inner = escaped(name);
    let t = name_object(name);
    assert(t.first() == '{');
    assert(t.last() == '}');
    text::lemma_trimmed_fixpoint(t);
    assert(t.subrange(1, 7) =~= name_key());
    assert forall|j: int| 0 <= j < 1 implies !#[trigger] text::occurs_at(t, name_key(), j) by {
        assert(t.subrange(0, 6)[0] == '{');
    }
    text::lemma_found_is(t, name_key(), 1);
    let after = t.skip(7);
    assert(after.subrange(0, 1) =~= seq![':']);
    text::lemma_found_is(after, seq![':'], 0);
    let value = after.skip(1);
    assert(value.subrange(0, 1) =~= seq!['"']);
    text::lemma_found_is(value, seq!['"'], 0);
    let rest = value.skip(1);
    assert(rest =~= inner + seq!['"', '}']);
    let end = inner.len() as int;
    assert(rest.subrange(end, end + 1) =~= seq!['"']);
    assert forall|j: int| 0 <= j < end implies !#[trigger] text::occurs_at(rest, seq!['"'], j) by {
        assert(rest.subrange(j, j + 1)[0] == inner[j]);
        assert(inner.contains(inner[j]));
    }
    text::lemma_found_is(rest, seq!['"'], end);
    assert(rest.take(end) =~= inner);
}

/// Whether a piece of text holds a character nowhere.
pub open spec fn lacks(s: Seq<char>, c: char) -> bool {
    forall|i: int| 0 <= i < s.len() ==> #[trigger] s[i] != c
}

proof fn lemma_found_behind(front: Seq<char>, c: char, rest: Seq<char>)
    requires
        lacks(front, c),
    ensures
        text::found(front + seq![c] + rest, seq![c]) == Some(front.len() as int),
        (front + seq![c] + rest).skip(front.len() as int + 1) == rest,
        (front + seq![c] + rest).take(front.len() as int) == front,
{
    let s = front + seq![c] + rest;
    let at = front.len() as int;
    assert(s.subrange(at, at + 1) =~= seq![c]);
    assert forall|j: int| 0 <= j < at implies !#[trigger] text::occurs_at(s, seq![c], j) by {
        assert(s.subrange(j, j + 1)[0] == front[j]);
    }
    text::lemma_found_is(s, seq![c], at);
    assert(s.skip(at + 1) =~= rest);
    assert(s.take(at) =~= front);
}

/// The name is the quoted text behind the key and a colon: whatever stands between these, before
/// the key and behind the name, and whatever white space is around the braces.
pub proof fn lemma_name_is_read(
    raw: Seq<char>,
    key: Seq<char>,
    front: Seq<char>,
    gap: Seq<char>,
    space: Seq<char>,
    name: Seq<char>,
    rest: Seq<char>,
)
    requires
        key == seq!['"', 'n', 'a', 'm', 'e', '"'],
        text::trimmed(raw) == front + (key + (gap + seq![':'] + (space + seq!['"'] + (name + seq![
            '"',
        ] + rest)))),
        text::trimmed(raw).first() == '{',
        text::trimmed(raw).last() == '}',
        forall|j: int|
            0 <= j < front.len() ==> !#[trigger] text::occurs_at(text::trimmed(raw), key, j),
        lacks(gap, ':'),
        lacks(space, '"'),
        lacks(name, '"'),
    ensures
        name_field(raw) == Some(name),
{
    let t = text::trimmed(raw);
    let value = name + seq!['"'] + rest;
    let quoted = space + seq!['"'] + value;
    let after = gap + seq![':'] + quoted;
    let at = front.len() as int;
    assert(name_key() =~= key);
    assert(t.subrange(at, at + 6) =~= key);
    text::lemma_found_is(t, key, at);
    assert(t.skip(at + 6) =~= after);
    lemma_found_behind(gap, ':', quoted);
    lemma_found_behind(space, '"', value);
    lemma_found_behind(name, '"', rest);
}

/// Nothing is read from a text that does not stand between braces or does not have the key, and a
/// name that is read stands in quotes in the text and holds none.
pub proof fn lemma_only_names_are_read(raw: Seq<char>, key: Seq<char>)
    requires
        key == seq!['"', 'n', 'a', 'm', 'e', '"'],
    ensures
        ({
            let t = text::trimmed(raw);
            &&& t.len() < 2 || t.first() != '{' || t.last() != '}' ==> name_field(raw) is None
            &&& (forall|j: int| !#[trigger] text::occurs_at(t, key, j)) ==> name_field(raw) is None
            &&& name_field(raw) matches Some(name) ==> {
                &&& lacks(name, '"')
                &&& exists|i: int| #[trigger]
                    text::occurs_at(t, name, i) && 0 < i && i + name.len() < t.len() && t[i - 1]
                        == '"' && t[i + name.len()] == '"'
            }
        }),
{
    let t = text::trimmed(raw);
    let quote = seq!['"'];
    assert(name_key() =~= key);
    text::lemma_found(t, key);
    if let Some(name) = name_field(raw) {
        let at = text::found(t, key)->0;
        let after = t.skip(at + 6);
        text::lemma_found(after, seq![':']);
        let colon = text::found(after, seq![':'])->0;
        let quoted = after.skip(colon + 1);
        text::lemma_found(quoted, quote);
        let open = text::found(quoted, quote)->0;
        let rest = quoted.skip(open + 1);
        text::lemma_found(rest, quote);
        let close = text::found(rest, quote)->0;
        assert(name == rest.take(close));
        assert forall|i: int| 0 <= i < name.len() implies #[trigger] name[i] != '"' by {
            if name[i] == '"' {
                assert(rest.subrange(i, i + 1) =~= quote);
                assert(text::occurs_at(rest, quote, i));
            }
        }
        let from = at + 6 + colon + 1 + open + 1;
        assert(quoted.subrange(open, open + 1)[0] == '"');
        assert(rest.subrange(close, close + 1)[0] == '"');
        assert(t[from - 1] == quoted[open]);
        assert(t[from + name.len()] == rest[close]);
        assert(t.subrange(from, from + name.len()) =~= name);
        assert(text::occurs_at(t, name, from));
    }
}

/// Escaping goes character by character, and puts a backslash before each backslash and each double
/// quote.
pub proof fn lemma_escaping(a: Seq<char>, b: Seq<char>, c: char)
    ensures
        escaped(a + b) == escaped(a) + escaped(b),
        escaped(seq!['"']) == seq!['\\', '"'],
        escaped(seq!['\\']) == seq!['\\', '\\'],
        c != '"' && c != '\\' ==> escaped(seq![c]) == seq![c],
    decreases b.len(),
{
    assert forall|x: char| escaped(seq![x]) == #[trigger] escaped_char(x) by {
        assert(seq![x].drop_last() =~= Seq::<char>::empty());
        assert(escaped(seq![x].drop_last()) =~= Seq::<char>::empty());
        assert(escaped(seq![x]) =~= escaped_char(x));
    }
    assert(escaped_char(c).len() >= 1);
    assert(escaped_char('"') == seq!['\\', '"']);
    assert(escaped_char('\\') == seq!['\\', '\\']);
    if b.len() == 0 {
        assert(a + b =~= a);
        assert(escaped(a) + escaped(b) =~= escaped(a));
    } else {
        lemma_escaping(a, b.drop_last(), c);
        assert((a + b).drop_last() =~= a + b.drop_last());
        assert((a + b).last() == b.last());
        assert(escaped(a + b) =~= escaped(a) + escaped(b));
    }
}

} // verus!
