//! Display names of graph nodes and summaries of host values.
use vstd::prelude::*;

use crate::media::chars_of;
use crate::text::{decimal, decimal_text, push_char};

verus! {

/// What `char::to_uppercase` yields for a character: its upper-case mapping by Unicode's
/// tables, one or more characters.
pub uninterp spec fn uppercase(c: char) -> Seq<char>;

/// `char::to_uppercase`, collected: the upper-case mapping of `c`. An ASCII lower-case letter
/// maps to its capital; any other ASCII character has no mapping and stays as it is.
#[verifier::external_body]
fn uppercase_chars(c: char) -> (chars: Vec<char>)
    ensures
        chars@ == uppercase(c),
        'a' <= c <= 'z' ==> chars@ == seq![((c as u32) - 32) as char],
        (c as u32) < 128 && !('a' <= c <= 'z') ==> chars@ == seq![c],
{
    c.to_uppercase().collect()
}

/// The part of a text after its last '.', or the whole text where it has none.
pub open spec fn last_segment(s: Seq<char>) -> Seq<char>
    decreases s.len(),
{
    if s.len() == 0 {
        s
    } else if s.last() == '.' {
        Seq::empty()
    } else {
        last_segment(s.drop_last()).push(s.last())
    }
}

/// The word separators of a raw node type.
pub open spec fn is_separator(c: char) -> bool {
    c == '_' || c == '-'
}

/// What the character at `i` becomes: a separator a space, the first character of a word its
/// upper-case mapping, any other character itself.
pub open spec fn friendly_piece(s: Seq<char>, i: int) -> Seq<char> {
    if is_separator(s[i]) {
        seq![' ']
    } else if i == 0 || is_separator(s[i - 1]) {
        uppercase(s[i])
    } else {
        seq![s[i]]
    }
}

/// The pieces of the characters of `s`, in order.
pub open spec fn friendly_text(s: Seq<char>) -> Seq<char>
    decreases s.len(),
{
    if s.len() == 0 {
        Seq::empty()
    } else {
        friendly_text(s.drop_last()) + friendly_piece(s, s.len() - 1)
    }
}

/// The readable name of a raw node type.
pub open spec fn friendly_name_of(raw: Seq<char>) -> Seq<char> {
    friendly_text(last_segment(raw))
}

proof fn lemma_friendly_piece_prefix(s: Seq<char>, n: int, i: int)
    requires
        0 <= i < n <= s.len(),
    ensures
        friendly_piece(s.take(n), i) == friendly_piece(s, i),
{
}

/// A readable name for a raw node type such as "kama.blur_radius": the part after the last
/// '.', with '_' and '-' turned into spaces and the first letter of each word in upper case.
pub fn friendly_name(raw: &str) -> (name: String)
    ensures
        name@ == friendly_name_of(raw@),
{
    let chars = chars_of(raw);
    let mut start: usize = 0;
    let mut i: usize = 0;
    proof {
        assert(chars@.take(0) =~= Seq::<char>::empty());
        assert(chars@.subrange(0, 0) =~= last_segment(chars@.take(0)));
    }
    while i < chars.len()
        invariant
            i <= chars.len(),
            start <= i,
            chars@.subrange(start as int, i as int) == last_segment(chars@.take(i as int)),
        decreases chars.len() - i,
    {
        proof {
            assert(chars@.take(i + 1).drop_last() =~= chars@.take(i as int));
            assert(chars@.take(i + 1).last() == chars@[i as int]);
        }
        if chars[i] == '.' {
            start = i + 1;
            assert(chars@.subrange(start as int, i + 1) =~= Seq::<char>::empty());
        } else {
            assert(chars@.subrange(start as int, i + 1) =~= chars@.subrange(start as int, i as int).push(chars@[i as int]));
        }
        i = i + 1;
    }
    assert(chars@.take(chars.len() as int) =~= chars@);
    let ghost seg = chars@.subrange(start as int, chars.len() as int);
    let mut name = String::new();
    let mut k: usize = start;
    proof {
        assert(seg.take(0) =~= Seq::<char>::empty());
    }
    while k < chars.len()
        invariant
            start <= k <= chars.len(),
            seg == chars@.subrange(start as int, chars.len() as int),
            name@ == friendly_text(seg.take(k - start)),
        decreases chars.len() - k,
    {
        let c = chars[k];
        let j: usize = k - start;
        let ghost before = name@;
        proof {
            let t = seg.take(j + 1);
            assert(t.drop_last() =~= seg.take(j as int));
            assert(t.last() == c);
            assert(seg[j as int] == c);
            lemma_friendly_piece_prefix(seg, j + 1, j as int);
            if j > 0 {
                assert(seg[j - 1] == chars@[k - 1]);
            }
        }
        if c == '_' || c == '-' {
            push_char(&mut name, ' ');
        } else if k == start || chars[k - 1] == '_' || chars[k - 1] == '-' {
            let upper = uppercase_chars(c);
            let mut u: usize = 0;
            while u < upper.len()
                invariant
                    u <= upper.len(),
                    name@ == before + upper@.take(u as int),
                decreases upper.len() - u,
            {
                push_char(&mut name, upper[u]);
                assert(upper@.take(u + 1) =~= upper@.take(u as int).push(upper@[u as int]));
                u = u + 1;
            }
            assert(upper@.take(upper.len() as int) =~= upper@);
        } else {
            push_char(&mut name, c);
        }
        proof {
            assert(name@ =~= before + friendly_piece(seg, j as int));
        }
        k = k + 1;
    }
    assert(seg.take(chars.len() - start) =~= seg);
    name
}

/// The kinds of host value a node input can hold, as far as a summary reads them.
#[derive(Clone, Debug)]
pub enum HostValueShape {
    /// A list of points, with how many there are.
    Points(usize),
    /// A list of numbers, with how many there are.
    Values(usize),
    Text(String),
    /// Raw bytes, with how many there are.
    Bytes(usize),
    /// A value handed to the GPU as it is.
    Gpu,
}

/// The one-line summary of a host value: counts for lists, the text for text, "-" for none.
/// A point list says how it is edited: with the pen, on the monitor, or neither.
pub open spec fn host_summary_of(value: Option<HostValueShape>, monitor_edit: bool, pen_edit: bool) -> Seq<char> {
    match value {
        Some(HostValueShape::Points(n)) => decimal(n as nat) + " points"@ + (if pen_edit {
            "Pen"@
        } else if monitor_edit {
            "Monitor"@
        } else {
            Seq::empty()
        }),
        Some(HostValueShape::Values(n)) => decimal(n as nat) + " values"@,
        Some(HostValueShape::Text(t)) => t@,
        Some(HostValueShape::Bytes(n)) => decimal(n as nat) + " bytes"@,
        Some(HostValueShape::Gpu) => "host value"@,
        None => "-"@,
    }
}

/// The one-line summary of a host value.
pub fn host_value_summary(value: Option<HostValueShape>, monitor_edit: bool, pen_edit: bool) -> (summary: String)
    ensures
        summary@ == host_summary_of(value, monitor_edit, pen_edit),
{
    match value {
        Some(HostValueShape::Points(n)) => {
            let mut text = decimal_text(n as u64);
            text.append(" points");
            if pen_edit {
                text.append("Pen");
            } else if monitor_edit {
                text.append("Monitor");
            }
            proof {
                if !pen_edit && !monitor_edit {
                    assert(text@ =~= decimal(n as nat) + " points"@ + Seq::<char>::empty());
                }
            }
            text
        },
        Some(HostValueShape::Values(n)) => {
            let mut text = decimal_text(n as u64);
            text.append(" values");
            text
        },
        Some(HostValueShape::Text(t)) => t,
        Some(HostValueShape::Bytes(n)) => {
            let mut text = decimal_text(n as u64);
            text.append(" bytes");
            text
        },
        Some(HostValueShape::Gpu) => String::from_str("host value"),
        None => String::from_str("-"),
    }
}

/// The name a card shows for a node of type `node_type`: "Pipeline" for the node that stands
/// for a shared pipeline (`is_pipeline`), else the name the plugin registry gives the type
/// (`registered`: that of its effect, else of its audio effect, else of its generator), else a
/// readable form of the type.
pub fn plugin_node_name(node_type: &str, is_pipeline: bool, registered: Option<&str>) -> (name: String)
    ensures
        name@ == if is_pipeline {
            "Pipeline"@
        } else {
            match registered {
                Some(n) => n@,
                None => friendly_name_of(node_type@),
            }
        },
{
    if is_pipeline {
        return String::from_str("Pipeline");
    }
    match registered {
        Some(n) => String::from_str(n),
        None => friendly_name(node_type),
    }
}

} // verus!
