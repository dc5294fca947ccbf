//! Plain and double-quoted scalars of the compose format.
use vstd::prelude::*;
use vstd::string::StrSliceExecFns;
use vstd::string::StringExecFns;

verus! {

/// A character that changes the meaning of a plain scalar when it comes first.
pub open spec fn is_indicator(c: char) -> bool {
    c == '-' || c == '?' || c == ':' || c == ',' || c == '[' || c == ']' || c == '{' || c == '}'
        || c == '#' || c == '&' || c == '*' || c == '!' || c == '|' || c == '>' || c == '\''
        || c == '"' || c == '%' || c == '@' || c == '`' || c == ' ' || c == '\t'
}

pub open spec fn is_line_break(c: char) -> bool {
    c == '\n' || c == '\r'
}

/// At position `i` stands a line break, a `": "` (a mapping separator) or a
/// `" #"` (the start of a comment).
pub open spec fn is_unsafe_at(s: Seq<char>, i: int) -> bool {
    ||| is_line_break(s[i])
    ||| i + 1 < s.len() && s[i] == ':' && s[i + 1] == ' '
    ||| i + 1 < s.len() && s[i] == ' ' && s[i + 1] == '#'
}

/// A value that cannot stand unquoted: it is empty, starts with an indicator
/// or a blank, ends with a colon or a blank, or holds an unsafe sequence.
pub open spec fn needs_quotes(s: Seq<char>) -> bool {
    ||| s.len() == 0
    ||| is_indicator(s[0])
    ||| s.last() == ':' || s.last() == ' ' || s.last() == '\t'
    ||| exists|i: int| 0 <= i < s.len() && #[trigger] is_unsafe_at(s, i)
}

/// The text that stands for `c` inside double quotes.
pub open spec fn escape_char(c: char) -> Seq<char> {
    if c == '\\' {
        seq!['\\', '\\']
    } else if c == '"' {
        seq!['\\', '"']
    } else if c == '\n' {
        seq!['\\', 'n']
    } else if c == '\r' {
        seq!['\\', 'r']
    } else if c == '\t' {
        seq!['\\', 't']
    } else {
        seq![c]
    }
}

/// A character that stands for itself inside double quotes.
pub open spec fn is_plain(c: char) -> bool {
    c != '\\' && c != '"' && c != '\n' && c != '\r' && c != '\t'
}

pub open spec fn escaped(s: Seq<char>) -> Seq<char> {
    s.map_values(|c: char| escape_char(c)).flatten()
}

/// How a value is written: as it is where that is safe, else double-quoted
/// with its special characters escaped.
pub open spec fn scalar(s: Seq<char>) -> Seq<char> {
    if needs_quotes(s) {
        seq!['"'] + escaped(s) + seq!['"']
    } else {
        s
    }
}

/// The character that an escape sequence `\e` stands for.
pub open spec fn unescape_char(e: char) -> char {
    if e == 'n' {
        '\n'
    } else if e == 'r' {
        '\r'
    } else if e == 't' {
        '\t'
    } else {
        e
    }
}

/// Reads the inside of a double-quoted scalar back into its value.
pub open spec fn unescaped(t: Seq<char>) -> Seq<char>
    decreases t.len(),
{
    if t.len() == 0 {
        seq![]
    } else if t[0] == '\\' && t.len() >= 2 {
        seq![unescape_char(t[1])] + unescaped(t.subrange(2, t.len() as int))
    } else {
        seq![t[0]] + unescaped(t.subrange(1, t.len() as int))
    }
}

/// Reads a written scalar back into its value.
pub open spec fn read_scalar(t: Seq<char>) -> Seq<char> {
    if t.len() >= 2 && t[0] == '"' && t.last() == '"' {
        unescaped(t.subrange(1, t.len() - 1))
    } else {
        t
    }
}

pub proof fn lemma_escaped_push(s: Seq<char>, c: char)
    ensures
        escaped(s.push(c)) == escaped(s) + escape_char(c),
{
    let f = |c: char| escape_char(c);
    assert(s.push(c).map_values(f) =~= s.map_values(f).push(escape_char(c)));
    s.map_values(f).lemma_flatten_push(escape_char(c));
}

pub proof fn lemma_escaped_concat(a: Seq<char>, b: Seq<char>)
    ensures
        escaped(a + b) == escaped(a) + escaped(b),
{
    let f = |c: char| escape_char(c);
    assert((a + b).map_values(f) =~= a.map_values(f) + b.map_values(f));
    vstd::seq_lib::lemma_flatten_concat(a.map_values(f), b.map_values(f));
}

/// A value of plain characters only is its own escaped form.
pub proof fn lemma_escaped_plain(t: Seq<char>)
    requires
        forall|k: int| 0 <= k < t.len() ==> is_plain(#[trigger] t[k]),
    ensures
        escaped(t) == t,
    decreases t.len(),
{
    if t.len() == 0 {
        assert(escaped(t) =~= t);
    } else {
        let init = t.drop_last();
        lemma_escaped_plain(init);
        lemma_escaped_push(init, t.last());
        assert(init.push(t.last()) =~= t);
        assert(escaped(t) =~= t);
    }
}

/// Reading back an escaped value gives the value.
pub proof fn lemma_unescape_escaped(s: Seq<char>)
    ensures
        unescaped(escaped(s)) == s,
    decreases s.len(),
{
    if s.len() > 0 {
        let f = |c: char| escape_char(c);
        let m = s.map_values(f);
        let c = s[0];
        let rest = s.subrange(1, s.len() as int);
        assert(m.drop_first() =~= rest.map_values(f));
        assert(escaped(s) == escape_char(c) + escaped(rest));
        lemma_unescape_escaped(rest);
        let t = escaped(s);
        if escape_char(c).len() == 2 {
            assert(t.subrange(2, t.len() as int) =~= escaped(rest));
        } else {
            assert(t.subrange(1, t.len() as int) =~= escaped(rest));
        }
        assert(unescaped(t) =~= s);
    } else {
        assert(escaped(s) =~= seq![]);
    }
}

/// A written scalar reads back as the value it was written from.
pub proof fn lemma_read_scalar(s: Seq<char>)
    ensures
        read_scalar(scalar(s)) == s,
{
    if needs_quotes(s) {
        let t = scalar(s);
        assert(t.subrange(1, t.len() - 1) =~= escaped(s));
        lemma_unescape_escaped(s);
    } else {
        // an unquoted value never starts with a double quote
        assert(s.len() == 0 || s[0] != '"');
    }
}

fn is_indicator_exec(c: char) -> (r: bool)
    ensures
        r == is_indicator(c),
{
    c == '-' || c == '?' || c == ':' || c == ',' || c == '[' || c == ']' || c == '{' || c == '}'
        || c == '#' || c == '&' || c == '*' || c == '!' || c == '|' || c == '>' || c == '\''
        || c == '"' || c == '%' || c == '@' || c == '`' || c == ' ' || c == '\t'
}

/// Decides whether `s` must be written double-quoted.
pub fn needs_quoting(s: &str) -> (r: bool)
    ensures
        r == needs_quotes(s@),
{
    broadcast use vstd::string::group_string_axioms;

    let mut prev: char = ' ';
    let mut started = false;
    for c in it: s.chars()
        invariant
            it.seq() == s@,
            started == (it.index() > 0),
            started ==> prev == s@[it.index() - 1] && !is_indicator(s@[0]),
            forall|k: int| 0 <= k < it.index() ==> !is_line_break(#[trigger] s@[k]),
            forall|k: int| 0 <= k < it.index() - 1 ==> !is_unsafe_at(s@, k),
    {
        let ghost i = it.index();
        if c == '\n' || c == '\r' {
            assert(is_unsafe_at(s@, i));
            return true;
        }
        if !started && is_indicator_exec(c) {
            return true;
        }
        if started && ((prev == ':' && c == ' ') || (prev == ' ' && c == '#')) {
            assert(is_unsafe_at(s@, i - 1));
            return true;
        }
        prev = c;
        started = true;
    }
    if !started || prev == ':' || prev == ' ' || prev == '\t' {
        return true;
    }
    assert forall|k: int| 0 <= k < s@.len() implies !#[trigger] is_unsafe_at(s@, k) by {
        assert(!is_line_break(s@[k]));
    }
    false
}

fn write_escape(out: &mut String, c: char)
    requires
        !is_plain(c),
    ensures
        final(out)@ == old(out)@ + escape_char(c),
{
    if c == '\\' {
        proof { reveal_strlit("\\\\"); }
        out.append("\\\\");
    } else if c == '"' {
        proof { reveal_strlit("\\\""); }
        out.append("\\\"");
    } else if c == '\n' {
        proof { reveal_strlit("\\n"); }
        out.append("\\n");
    } else if c == '\r' {
        proof { reveal_strlit("\\r"); }
        out.append("\\r");
    } else {
        proof { reveal_strlit("\\t"); }
        out.append("\\t");
    }
}

fn write_escaped(out: &mut String, s: &str)
    ensures
        final(out)@ == old(out)@ + escaped(s@),
{
    broadcast use vstd::string::group_string_axioms;

    let ghost start = out@;
    let n = s.unicode_len();
    let mut run: usize = 0;
    let mut i: usize = 0;
    assert(escaped(s@.subrange(0, 0)) =~= seq![]);
    for c in it: s.chars()
        invariant
            it.seq() == s@,
            n == s@.len(),
            i == it.index(),
            run <= i,
            out@ == start + escaped(s@.subrange(0, run as int)),
            forall|k: int| run <= k < i ==> is_plain(#[trigger] s@[k]),
    {
        if c == '\\' || c == '"' || c == '\n' || c == '\r' || c == '\t' {
            let piece = s.substring_char(run, i);
            out.append(piece);
            write_escape(out, c);
            proof {
                let plain = s@.subrange(run as int, i as int);
                lemma_escaped_plain(plain);
                lemma_escaped_concat(s@.subrange(0, run as int), plain);
                assert(s@.subrange(0, run as int) + plain =~= s@.subrange(0, i as int));
                lemma_escaped_push(s@.subrange(0, i as int), c);
                assert(s@.subrange(0, i as int).push(c) =~= s@.subrange(0, i + 1));
            }
            run = i + 1;
        }
        i += 1;
    }
    let piece = s.substring_char(run, n);
    out.append(piece);
    proof {
        let plain = s@.subrange(run as int, n as int);
        lemma_escaped_plain(plain);
        lemma_escaped_concat(s@.subrange(0, run as int), plain);
        assert(s@.subrange(0, run as int) + plain =~= s@);
    }
}

/// Appends `s` to `out` as a scalar of the format.
pub fn write_scalar(out: &mut String, s: &str)
    ensures
        final(out)@ == old(out)@ + scalar(s@),
{
    if needs_quoting(s) {
        proof { reveal_strlit("\""); }
        out.append("\"");
        write_escaped(out, s);
        out.append("\"");
        assert(out@ =~= old(out)@ + scalar(s@));
    } else {
        out.append(s);
    }
}

} // verus!
