//! Escaping of field values. A value may hold any character; on a line of
//! markup the backslash, the line feed and the carriage return are written
//! as two-character escapes, so that a value never ends its own line.

use vstd::prelude::*;

verus! {

/// How one character of a value is written.
pub open spec fn escape_char(c: char) -> Seq<char> {
    if c == '\\' {
        seq!['\\', '\\']
    } else if c == '\n' {
        seq!['\\', 'n']
    } else if c == '\r' {
        seq!['\\', 'r']
    } else {
        seq![c]
    }
}

/// How a value is written: each character by `escape_char`, in order.
pub open spec fn escape(value: Seq<char>) -> Seq<char>
    decreases value.len(),
{
    if value.len() == 0 {
        Seq::empty()
    } else {
        escape(value.drop_last()) + escape_char(value.last())
    }
}

/// The character that the escape code `c` (the one after a backslash)
/// stands for, if it is a code at all.
pub open spec fn escape_code(c: char) -> Option<char> {
    if c == '\\' {
        Some('\\')
    } else if c == 'n' {
        Some('\n')
    } else if c == 'r' {
        Some('\r')
    } else {
        None
    }
}

/// Puts `head` in front of a value that may be missing.
pub open spec fn prepend(head: Seq<char>, tail: Option<Seq<char>>) -> Option<Seq<char>> {
    match tail {
        Some(rest) => Some(head + rest),
        None => None,
    }
}

/// The value that written text stands for. Text with a backslash that is
/// not followed by one of the three codes stands for no value.
pub open spec fn unescape(text: Seq<char>) -> Option<Seq<char>>
    decreases text.len(),
{
    if text.len() == 0 {
        Some(Seq::empty())
    } else if text[0] != '\\' {
        prepend(seq![text[0]], unescape(text.skip(1)))
    } else if text.len() < 2 {
        None
    } else {
        match escape_code(text[1]) {
            Some(c) => prepend(seq![c], unescape(text.skip(2))),
            None => None,
        }
    }
}

/// Written text holds neither a line feed nor a carriage return.
pub open spec fn line_safe(text: Seq<char>) -> bool {
    forall|i: int| 0 <= i < text.len() ==> #[trigger] text[i] != '\n' && text[i] != '\r'
}

/// Escaping can also be unfolded from the front.
pub proof fn lemma_escape_front(value: Seq<char>)
    requires
        value.len() > 0,
    ensures
        escape(value) == escape_char(value[0]) + escape(value.skip(1)),
    decreases value.len(),
{
    if value.len() == 1 {
        assert(value.drop_last() =~= Seq::<char>::empty());
        assert(value.skip(1) =~= Seq::<char>::empty());
        assert(escape(value) =~= escape_char(value[0]) + escape(value.skip(1)));
    } else {
        let init = value.drop_last();
        lemma_escape_front(init);
        assert(init.skip(1) =~= value.skip(1).drop_last());
        assert(escape(value) =~= escape_char(value[0]) + escape(value.skip(1)));
    }
}

/// Every written value is safe to put on a line.
pub proof fn lemma_escape_line_safe(value: Seq<char>)
    ensures
        line_safe(escape(value)),
    decreases value.len(),
{
    if value.len() > 0 {
        lemma_escape_line_safe(value.drop_last());
    }
}

/// Reading a written value gives the value back.
pub proof fn lemma_unescape_escape(value: Seq<char>)
    ensures
        unescape(escape(value)) == Some(value),
    decreases value.len(),
{
    if value.len() > 0 {
        let c = value[0];
        let rest = value.skip(1);
        lemma_escape_front(value);
        lemma_unescape_escape(rest);
        let written = escape(value);
        if c == '\\' || c == '\n' || c == '\r' {
            assert(written.skip(2) =~= escape(rest));
        } else {
            assert(written.skip(1) =~= escape(rest));
        }
        assert(seq![c] + rest =~= value);
    }
}

/// Appends `value`, escaped, to `out`.
pub(crate) fn push_escaped(out: &mut String, value: &str)
    ensures
        final(out)@ == old(out)@ + escape(value@),
{
    let ghost before = out@;
    for c in it: value.chars()
        invariant
            it.seq() == value@,
            out@ == before + escape(value@.take(it.index() as int)),
    {
        let ghost seen = value@.take(it.index() as int);
        let ghost next = value@.take(it.index() + 1);
        proof {
            assert(next.drop_last() =~= seen);
            assert(next.last() == c);
        }
        if c == '\\' {
            out.push('\\');
            out.push('\\');
        } else if c == '\n' {
            out.push('\\');
            out.push('n');
        } else if c == '\r' {
            out.push('\\');
            out.push('r');
        } else {
            out.push(c);
        }
        assert(out@ =~= before + escape(next));
    }
    assert(value@.take(value@.len() as int) =~= value@);
}

/// Reads the value written in `chars[from..to]`.
pub(crate) fn read_escaped(chars: &Vec<char>, from: usize, to: usize) -> (value: Option<String>)
    requires
        from <= to <= chars.len(),
    ensures
        match value {
            Some(v) => unescape(chars@.subrange(from as int, to as int)) == Some(v@),
            None => unescape(chars@.subrange(from as int, to as int)) is None,
        },
{
    let ghost text = chars@.subrange(from as int, to as int);
    let mut value = String::new();
    let mut i: usize = from;
    assert(text.skip(0) =~= text);
    assert(prepend(value@, unescape(text)) == unescape(text)) by {
        if let Some(v) = unescape(text) {
            assert(value@ + v =~= v);
        }
    }
    while i < to
        invariant
            from <= i <= to <= chars.len(),
            text == chars@.subrange(from as int, to as int),
            unescape(text) == prepend(value@, unescape(text.skip(i - from))),
        decreases to - i,
    {
        let ghost rest = text.skip(i - from);
        let ghost head = value@;
        let c = chars[i];
        assert(rest[0] == c);
        if c != '\\' {
            value.push(c);
            i += 1;
            proof {
                assert(rest.skip(1) =~= text.skip(i - from));
                if let Some(v) = unescape(rest.skip(1)) {
                    assert(head + (seq![c] + v) =~= value@ + v);
                }
            }
        } else if i + 1 >= to {
            return None;
        } else {
            let code = chars[i + 1];
            assert(rest[1] == code);
            let decoded = if code == '\\' {
                '\\'
            } else if code == 'n' {
                '\n'
            } else if code == 'r' {
                '\r'
            } else {
                return None;
            };
            value.push(decoded);
            i += 2;
            proof {
                assert(rest.skip(2) =~= text.skip(i - from));
                if let Some(v) = unescape(rest.skip(2)) {
                    assert(head + (seq![decoded] + v) =~= value@ + v);
                }
            }
        }
    }
    assert(text.skip(to - from) =~= Seq::<char>::empty());
    assert(value@ + Seq::<char>::empty() =~= value@);
    Some(value)
}

} // verus!
