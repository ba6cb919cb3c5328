//! Write meta data as JSON.

use vstd::prelude::*;
use vstd::string::StringSliceAdditionalSpecFns;
use crate::range::Range;
use crate::read_token::{ReadToken, number_len, number_value, number_overflows};
use crate::text::{push_str, chars_of, string_of};
use crate::{MetaData, MetaDataV};
use crate::tokenizer::toks_view;

verus! {

/// The lower case hexadecimal digit of a value below sixteen.
pub open spec fn hex_digit(d: u8) -> char {
    if d < 10 { ((0x30u8 + d) as u8) as char } else { ((0x57u8 + d) as u8) as char }
}

/// A character as it stands inside a JSON string: backslashes, quotes
/// and control characters escaped, the rest as it is.
#[verifier::opaque]
pub open spec fn escape_char(c: char) -> Seq<char> {
    if c == '\\' {
        "\\\\"@
    } else if c == '"' {
        "\\\""@
    } else if c == '\n' {
        "\\n"@
    } else if c == '\r' {
        "\\r"@
    } else if c == '\t' {
        "\\t"@
    } else if c == '\u{8}' {
        "\\b"@
    } else if c == '\u{c}' {
        "\\f"@
    } else if (c as u32) < 0x20 {
        "\\u00"@ + seq![hex_digit(((c as u32) / 16) as u8), hex_digit(((c as u32) % 16) as u8)]
    } else {
        seq![c]
    }
}

/// The characters of a text with each escaped as in a JSON string.
pub open spec fn escaped(s: Seq<char>) -> Seq<char>
    decreases s.len(),
{
    if s.len() == 0 {
        Seq::empty()
    } else {
        escaped(s.drop_last()) + escape_char(s.last())
    }
}

/// A text as a JSON string.
pub open spec fn json_string(s: Seq<char>) -> Seq<char> {
    "\""@ + escaped(s) + "\""@
}

/// A number property as written in JSON: the value that `read_token`
/// reads from the numeral, written with `Display`, or the numeral itself
/// when it is not a whole number or its exponent does not fit in a `u64`.
pub open spec fn json_number(numeral: Seq<char>) -> Seq<char> {
    let b = vstd::utf8::encode_utf8(numeral);
    if number_len(b, true) == Some(b.len() as int) && !number_overflows(b, true, b.len() as int) {
        match number_value(b, true, b.len() as int) {
            Ok((v, _)) => v,
            Err(_) => numeral,
        }
    } else {
        numeral
    }
}

/// The number of start nodes (when `end` is false) or end nodes among
/// the first `n` items.
pub open spec fn count_nodes(data: Seq<Range<MetaDataV>>, n: int, end: bool) -> nat
    decreases n,
{
    if n <= 0 {
        0
    } else {
        let here: nat = match data[n - 1].data {
            MetaDataV::StartNode(_) => if end { 0 } else { 1 },
            MetaDataV::EndNode(_) => if end { 1 } else { 0 },
            _ => 0,
        };
        count_nodes(data, n - 1, end) + here
    }
}

/// The indention that writing starts with, so that it balances off to zero:
/// the difference of the numbers of start and end nodes, each counted as a
/// `u32`.
pub open spec fn start_indent(data: Seq<Range<MetaDataV>>) -> int {
    let starts = (count_nodes(data, data.len() as int, false) % 0x1_0000_0000) as int;
    let ends = (count_nodes(data, data.len() as int, true) % 0x1_0000_0000) as int;
    if starts >= ends { starts - ends } else { ends - starts }
}

/// `n` spaces.
pub open spec fn spaces(n: nat) -> Seq<char> {
    Seq::new(n, |i: int| ' ')
}

/// The JSON of an item after its indention, and whether it starts a node.
pub open spec fn item_json(d: MetaDataV) -> Seq<char> {
    match d {
        MetaDataV::StartNode(name) => json_string(name) + ":{"@,
        MetaDataV::EndNode(_) => "}"@,
        MetaDataV::Bool(name, val) => json_string(name) + ":"@ + (if val { "true"@ } else { "false"@ }),
        MetaDataV::F64(name, val) => json_string(name) + ":"@ + json_number(val),
        MetaDataV::String(name, val) => json_string(name) + ":"@ + json_string(val),
    }
}

/// Writing the items from the `i`-th on, with the indention `indent` and
/// `first` telling whether the item comes first in a node.
/// `None` when the indention leaves the range of `u32`.
pub open spec fn json_items(data: Seq<Range<MetaDataV>>, i: int, indent: int, first: bool) -> Option<Seq<char>>
    decreases data.len() - i,
{
    if i < 0 || i >= data.len() {
        Some("\n"@)
    } else {
        let d = data[i].data;
        let is_end = d is EndNode;
        if is_end && indent == 0 {
            None
        } else {
            let indent1 = if is_end { indent - 1 } else { indent };
            let sep: Seq<char> = if !first && !is_end { ",\n"@ } else if i != 0 { "\n"@ } else { Seq::empty() };
            let indent2 = if d is StartNode { indent1 + 1 } else { indent1 };
            if indent2 > u32::MAX {
                None
            } else {
                match json_items(data, i + 1, indent2, d is StartNode) {
                    Some(rest) => Some(sep + spaces(indent1 as nat) + item_json(d) + rest),
                    None => None,
                }
            }
        }
    }
}

/// The JSON of meta data, or `None` when the indention leaves the range
/// of `u32`.
pub open spec fn json_of(data: Seq<Range<MetaDataV>>) -> Option<Seq<char>> {
    json_items(data, 0, start_indent(data), true)
}

/// A text before an optional text.
pub open spec fn prepend(p: Seq<char>, o: Option<Seq<char>>) -> Option<Seq<char>> {
    match o {
        Some(rest) => Some(p + rest),
        None => None,
    }
}

/// The indention before an item, from the indention after it.
pub open spec fn indent0_of(after: int, is_start: bool, is_end: bool) -> int {
    (if is_start { after - 1 } else { after }) + (if is_end { 1int } else { 0 })
}

/// The lower case hexadecimal digit of a value below sixteen.
fn hex_digit_exec(d: u8) -> (c: char)
    requires
        d < 16,
    ensures
        c == hex_digit(d),
{
    if d < 10 { (0x30u8 + d) as char } else { (0x57u8 + d) as char }
}

/// Appends a character as it stands inside a JSON string.
fn push_escaped(out: &mut Vec<char>, c: char)
    ensures
        final(out)@ == old(out)@ + escape_char(c),
{
    let ghost start = out@;
    reveal(escape_char);
    if c == '\\' {
        push_str(out, "\\\\");
    } else if c == '"' {
        push_str(out, "\\\"");
    } else if c == '\n' {
        push_str(out, "\\n");
    } else if c == '\r' {
        push_str(out, "\\r");
    } else if c == '\t' {
        push_str(out, "\\t");
    } else if c == '\u{8}' {
        push_str(out, "\\b");
    } else if c == '\u{c}' {
        push_str(out, "\\f");
    } else if (c as u32) < 0x20 {
        push_str(out, "\\u00");
        let v: u8 = (c as u32) as u8;
        out.push(hex_digit_exec(v / 16));
        out.push(hex_digit_exec(v % 16));
        proof {
            assert(v / 16 == ((c as u32) / 16) as u8);
            assert(v % 16 == ((c as u32) % 16) as u8);
            assert(out@ =~= start + escape_char(c));
        }
    } else {
        out.push(c);
        proof {
            assert(out@ =~= start + escape_char(c));
        }
    }
}

/// Appends a JSON string.
fn push_json_string(out: &mut Vec<char>, val: &str)
    ensures
        final(out)@ == old(out)@ + json_string(val@),
{
    let chars = chars_of(val);
    let ghost start = out@;
    push_str(out, "\"");
    let mut i: usize = 0;
    while i < chars.len()
        invariant
            i <= chars@.len(),
            out@ == start + "\""@ + escaped(chars@.subrange(0, i as int)),
        decreases chars@.len() - i,
    {
        let c = chars[i];
        push_escaped(out, c);
        i = i + 1;
        proof {
            assert(chars@.subrange(0, i as int).drop_last() =~= chars@.subrange(0, i - 1));
            assert(escaped(chars@.subrange(0, i as int)) == escaped(chars@.subrange(0, i - 1)) + escape_char(c));
            assert(out@ =~= start + "\""@ + escaped(chars@.subrange(0, i as int)));
        }
    }
    push_str(out, "\"");
    proof {
        assert(chars@.subrange(0, chars@.len() as int) =~= val@);
        assert(out@ =~= start + json_string(val@));
    }
}

/// Writes a JSON string.
pub fn write_string(val: &str) -> (s: String)
    ensures
        s@ == json_string(val@),
{
    let mut out: Vec<char> = Vec::new();
    push_json_string(&mut out, val);
    proof {
        assert(out@ =~= json_string(val@));
    }
    string_of(&out)
}

/// Appends a number property's value.
fn push_json_number(out: &mut Vec<char>, numeral: &str)
    ensures
        final(out)@ == old(out)@ + json_number(numeral@),
{
    broadcast use vstd::utf8::encode_utf8_valid_utf8;
    let n = numeral.as_bytes().len();
    let rt = ReadToken::new(numeral, 0);
    match rt.number(true) {
        Some(r) => {
            if r.length == n && !rt.number_overflows(true, n) {
                match rt.parse_number(true, n) {
                    Ok((v, _)) => push_str(out, v.as_str()),
                    Err(_) => push_str(out, numeral),
                }
            } else {
                push_str(out, numeral);
            }
        },
        None => push_str(out, numeral),
    }
}

/// Appends the JSON of an item after its indention.
fn push_item(out: &mut Vec<char>, d: &MetaData)
    ensures
        final(out)@ == old(out)@ + item_json(d@),
{
    let ghost start = out@;
    match d {
        MetaData::StartNode(name) => {
            push_json_string(out, name.as_str());
            push_str(out, ":{");
        },
        MetaData::EndNode(_) => push_str(out, "}"),
        MetaData::Bool(name, val) => {
            push_json_string(out, name.as_str());
            push_str(out, ":");
            if *val {
                push_str(out, "true");
            } else {
                push_str(out, "false");
            }
        },
        MetaData::F64(name, val) => {
            push_json_string(out, name.as_str());
            push_str(out, ":");
            push_json_number(out, val.as_str());
        },
        MetaData::String(name, val) => {
            push_json_string(out, name.as_str());
            push_str(out, ":");
            push_json_string(out, val.as_str());
        },
    }
    proof {
        assert(out@ =~= start + item_json(d@));
    }
}

/// Counts the start nodes (when `end` is false) or end nodes, as a `u32`.
fn count_u32(data: &[Range<MetaData>], end: bool) -> (c: u32)
    ensures
        c as int == count_nodes(toks_view(data@), data@.len() as int, end) % 0x1_0000_0000,
{
    let ghost v = toks_view(data@);
    let mut c: u32 = 0;
    let mut i: usize = 0;
    while i < data.len()
        invariant
            v == toks_view(data@),
            v.len() == data@.len(),
            i <= data@.len(),
            c as int == count_nodes(v, i as int, end) % 0x1_0000_0000,
        decreases data@.len() - i,
    {
        let hit = match &data[i].data {
            MetaData::StartNode(_) => !end,
            MetaData::EndNode(_) => end,
            _ => false,
        };
        proof {
            assert(v[i as int].data == data@[i as int].data@);
        }
        if hit {
            c = c.wrapping_add(1);
        }
        i = i + 1;
    }
    c
}

/// Writes meta data as JSON.
/// `None` when the indention would leave the range of `u32`.
#[verifier::rlimit(40)]
#[verifier::spinoff_prover]
pub fn write(data: &[Range<MetaData>]) -> (s: Option<String>)
    ensures
        match s {
            Some(s) => json_of(toks_view(data@)) == Some(s@),
            None => json_of(toks_view(data@)) is None,
        },
{
    let ghost v = toks_view(data@);
    let starts = count_u32(data, false);
    let ends = count_u32(data, true);
    let mut indent: u32 = if starts >= ends { starts - ends } else { ends - starts };
    let mut first = true;
    let mut out: Vec<char> = Vec::new();
    proof {
        assert(out@ + Seq::<char>::empty() =~= Seq::<char>::empty());
    }
    let mut i: usize = 0;
    while i < data.len()
        invariant
            v == toks_view(data@),
            v.len() == data@.len(),
            i <= data@.len(),
            json_of(v) == prepend(out@, json_items(v, i as int, indent as int, first)),
        decreases data@.len() - i,
    {
        let d = &data[i].data;
        proof {
            assert(v[i as int].data == d@);
        }
        let ghost before = out@;
        let ghost first0 = first;
        let is_end = match d {
            MetaData::EndNode(_) => true,
            _ => false,
        };
        if is_end {
            if indent == 0 {
                return None;
            }
            indent = indent - 1;
        }
        let ghost indent1 = indent;
        let print_comma = !first && !is_end;
        if print_comma {
            push_str(&mut out, ",\n");
        } else if i != 0 {
            push_str(&mut out, "\n");
        }
        let ghost sep = out@.subrange(before.len() as int, out@.len() as int);
        proof {
            assert(sep =~= (if !first0 && !is_end { ",\n"@ } else if i != 0 { "\n"@ } else { Seq::<char>::empty() }));
            assert(out@ =~= before + sep);
        }
        first = false;
        let mut k: u32 = 0;
        while k < indent
            invariant
                k <= indent,
                out@ == before + sep + spaces(k as nat),
            decreases indent - k,
        {
            out.push(' ');
            k = k + 1;
            proof {
                assert(out@ =~= before + sep + spaces(k as nat));
            }
        }
        push_item(&mut out, d);
        let is_start = match d {
            MetaData::StartNode(_) => true,
            _ => false,
        };
        if is_start {
            first = true;
            if indent == u32::MAX {
                return None;
            }
            indent = indent + 1;
        }
        i = i + 1;
        proof {
            let piece = sep + spaces(indent1 as nat) + item_json(d@);
            assert(out@ =~= before + piece);
            match json_items(v, i as int, indent as int, first) {
                Some(rest) => {
                    assert(json_items(v, i - 1, indent0_of(indent as int, is_start, is_end), first0) == Some(piece + rest));
                    assert(before + (piece + rest) =~= out@ + rest);
                },
                None => {},
            }
        }
    }
    let ghost body = out@;
    push_str(&mut out, "\n");
    proof {
        assert(out@ =~= body + "\n"@);
    }
    Some(string_of(&out))
}


/// The depth of nodes after the first `n` items: start nodes less end nodes.
pub open spec fn depth(data: Seq<Range<MetaDataV>>, n: int) -> int {
    count_nodes(data, n, false) - count_nodes(data, n, true)
}

/// Whether every node that starts ends, and no node ends before it starts.
pub open spec fn balanced(data: Seq<Range<MetaDataV>>) -> bool {
    &&& depth(data, data.len() as int) == 0
    &&& forall|n: int| 0 <= n <= data.len() ==> #[trigger] depth(data, n) >= 0
}

proof fn lemma_count_nodes_step(data: Seq<Range<MetaDataV>>, n: int, end: bool)
    requires
        0 <= n < data.len(),
    ensures
        count_nodes(data, n + 1, end) == count_nodes(data, n, end) + match data[n].data {
            MetaDataV::StartNode(_) => if end { 0int } else { 1 },
            MetaDataV::EndNode(_) => if end { 1int } else { 0 },
            _ => 0,
        },
{
}

proof fn lemma_count_nodes_bound(data: Seq<Range<MetaDataV>>, n: int, end: bool)
    requires
        0 <= n <= data.len(),
    ensures
        count_nodes(data, n, end) <= n,
    decreases n,
{
    if n > 0 {
        lemma_count_nodes_bound(data, n - 1, end);
    }
}

proof fn lemma_json_items_balanced(data: Seq<Range<MetaDataV>>, i: int, first: bool)
    requires
        balanced(data),
        0 <= i <= data.len(),
        data.len() < u32::MAX,
    ensures
        json_items(data, i, depth(data, i), first) is Some,
    decreases data.len() - i,
{
    if i < data.len() {
        lemma_count_nodes_step(data, i, false);
        lemma_count_nodes_step(data, i, true);
        lemma_count_nodes_bound(data, i + 1, false);
        lemma_count_nodes_bound(data, i + 1, true);
        assert(depth(data, i + 1) >= 0);
        assert(depth(data, i) >= 0);
        lemma_json_items_balanced(data, i + 1, data[i].data is StartNode);
    }
}

/// Writing meta data where every node that starts ends, and no node ends
/// before it starts, never fails: the indention starts at zero and stays
/// within `u32`.
pub proof fn lemma_json_balanced(data: Seq<Range<MetaDataV>>)
    requires
        balanced(data),
        data.len() < u32::MAX,
    ensures
        json_of(data) is Some,
{
    lemma_count_nodes_bound(data, data.len() as int, false);
    lemma_count_nodes_bound(data, data.len() as int, true);
    assert(depth(data, 0) == 0);
    assert(start_indent(data) == 0);
    lemma_json_items_balanced(data, 0, true);
}

/// A bool property is written as its name as a JSON string, a colon, and
/// the literal `true` or `false` that matches its value; alone, it makes a
/// document of that one line.
pub proof fn lemma_bool_json(name: Seq<char>, val: bool, offset: usize, length: usize)
    ensures
        item_json(MetaDataV::Bool(name, val)) == json_string(name) + ":"@ + (if val { "true"@ } else { "false"@ }),
        json_of(seq![Range { offset, length, data: MetaDataV::Bool(name, val) }])
            == Some(json_string(name) + ":"@ + (if val { "true"@ } else { "false"@ }) + "\n"@),
{
    let data = seq![Range { offset, length, data: MetaDataV::Bool(name, val) }];
    assert(data[0].data == MetaDataV::Bool(name, val));
    assert(data.len() == 1);
    reveal_with_fuel(count_nodes, 2);
    assert(count_nodes(data, 1, false) == 0);
    assert(count_nodes(data, 1, true) == 0);
    assert(start_indent(data) == 0);
    assert(json_items(data, 1, 0, false) == Some("\n"@));
    assert(spaces(0) =~= Seq::<char>::empty());
    let line = json_string(name) + ":"@ + (if val { "true"@ } else { "false"@ });
    assert(Seq::<char>::empty() + spaces(0) + line + "\n"@ =~= line + "\n"@);
}

/// A string property is written as its name and its value, each as a JSON
/// string, with a colon between; alone, it makes a document of that one
/// line.
pub proof fn lemma_string_json(name: Seq<char>, val: Seq<char>, offset: usize, length: usize)
    ensures
        json_of(seq![Range { offset, length, data: MetaDataV::String(name, val) }])
            == Some(json_string(name) + ":"@ + json_string(val) + "\n"@),
{
    let data = seq![Range { offset, length, data: MetaDataV::String(name, val) }];
    assert(data[0].data == MetaDataV::String(name, val));
    assert(data.len() == 1);
    reveal_with_fuel(count_nodes, 2);
    assert(start_indent(data) == 0);
    assert(json_items(data, 1, 0, false) == Some("\n"@));
    let line = json_string(name) + ":"@ + json_string(val);
    assert(Seq::<char>::empty() + spaces(0) + line + "\n"@ =~= line + "\n"@);
}

/// An empty node is written as its name, a colon and an opening brace on
/// one line, and the closing brace on the next.
pub proof fn lemma_empty_node_json(name: Seq<char>, r1: Range, r2: Range)
    ensures
        json_of(seq![Range { offset: r1.offset, length: r1.length, data: MetaDataV::StartNode(name) }, Range { offset: r2.offset, length: r2.length, data: MetaDataV::EndNode(name) }])
            == Some(json_string(name) + ":{"@ + "\n"@ + "}"@ + "\n"@),
{
    let data = seq![Range { offset: r1.offset, length: r1.length, data: MetaDataV::StartNode(name) }, Range { offset: r2.offset, length: r2.length, data: MetaDataV::EndNode(name) }];
    assert(data[0].data == MetaDataV::StartNode(name));
    assert(data[1].data == MetaDataV::EndNode(name));
    assert(data.len() == 2);
    reveal_with_fuel(count_nodes, 3);
    assert(count_nodes(data, 2, false) == 1);
    assert(count_nodes(data, 2, true) == 1);
    assert(start_indent(data) == 0);
    assert(json_items(data, 2, 0, false) == Some("\n"@));
    assert(spaces(0) =~= Seq::<char>::empty());
    assert(json_items(data, 1, 1, true) == Some("\n"@ + spaces(0) + "}"@ + "\n"@));
    assert(json_of(data) == Some(Seq::<char>::empty() + spaces(0) + (json_string(name) + ":{"@) + ("\n"@ + spaces(0) + "}"@ + "\n"@)));
    assert(Seq::<char>::empty() + spaces(0) + (json_string(name) + ":{"@) + ("\n"@ + spaces(0) + "}"@ + "\n"@) =~= json_string(name) + ":{"@ + "\n"@ + "}"@ + "\n"@);
}

} // verus!
