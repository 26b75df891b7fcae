//! Lines of markup. A document is read line by line; each line is a block
//! marker, a `name=value` field, or blank. This module says what each line
//! means and how each meaningful line is written.

use vstd::prelude::*;
use crate::decimal::{
    decimal, is_digit, parse_decimal, push_decimal, read_decimal, lemma_decimal_digits,
};
use crate::markup::escape::{
    escape, unescape, push_escaped, read_escaped, lemma_escape_line_safe, lemma_unescape_escape,
};
use crate::text::{position_of, find_in_range, range_is, lemma_position_of_is};

verus! {

/// Names of the fields that hold text.
#[derive(Clone, Copy, Debug, PartialEq, Eq, Structural)]
pub enum TextKey {
    Title,
    Artist,
    Album,
    Genre,
    Year,
    Comment,
    Arguments,
    Copyright,
    Path,
    NewPath,
    Codec,
    AlbumArt,
}

/// Names of the fields that hold a number.
#[derive(Clone, Copy, Debug, PartialEq, Eq, Structural)]
pub enum NumberKey {
    Id,
    Track,
    Songs,
}

/// The four lines that open and close blocks.
#[derive(Clone, Copy, Debug, PartialEq, Eq, Structural)]
pub enum Marker {
    AlbumOpen,
    AlbumClose,
    SongOpen,
    SongClose,
}

impl Marker {
    /// The line that the marker is.
    pub open spec fn line(self) -> LineView {
        match self {
            Marker::AlbumOpen => LineView::AlbumOpen,
            Marker::AlbumClose => LineView::AlbumClose,
            Marker::SongOpen => LineView::SongOpen,
            Marker::SongClose => LineView::SongClose,
        }
    }
}

/// What one line of a document says.
#[derive(Debug, PartialEq, Eq)]
pub enum Line {
    /// An empty line.
    Blank,
    /// `[album]`
    AlbumOpen,
    /// `[/album]`
    AlbumClose,
    /// `[song]`
    SongOpen,
    /// `[/song]`
    SongClose,
    /// A text field with its value, escapes resolved.
    Text(TextKey, String),
    /// A numeric field with its value.
    Number(NumberKey, u64),
    /// A well-formed field whose name this version does not know.
    Extra,
    /// Anything else.
    Bad,
}

/// Mathematical value of a [`Line`].
pub enum LineView {
    Blank,
    AlbumOpen,
    AlbumClose,
    SongOpen,
    SongClose,
    Text(TextKey, Seq<char>),
    Number(NumberKey, u64),
    Extra,
    Bad,
}

impl View for Line {
    type V = LineView;

    open spec fn view(&self) -> LineView {
        match self {
            Line::Blank => LineView::Blank,
            Line::AlbumOpen => LineView::AlbumOpen,
            Line::AlbumClose => LineView::AlbumClose,
            Line::SongOpen => LineView::SongOpen,
            Line::SongClose => LineView::SongClose,
            Line::Text(key, value) => LineView::Text(*key, value@),
            Line::Number(key, value) => LineView::Number(*key, *value),
            Line::Extra => LineView::Extra,
            Line::Bad => LineView::Bad,
        }
    }
}

impl TextKey {
    /// The name under which the field is written.
    pub open spec fn name(self) -> Seq<char> {
        match self {
            TextKey::Title => "title"@,
            TextKey::Artist => "artist"@,
            TextKey::Album => "album"@,
            TextKey::Genre => "genre"@,
            TextKey::Year => "year"@,
            TextKey::Comment => "comment"@,
            TextKey::Arguments => "arguments"@,
            TextKey::Copyright => "copyright"@,
            TextKey::Path => "path"@,
            TextKey::NewPath => "newpath"@,
            TextKey::Codec => "codec"@,
            TextKey::AlbumArt => "albumart"@,
        }
    }

    /// The text field that `name` names, if any.
    pub open spec fn named(name: Seq<char>) -> Option<TextKey> {
        if name == "title"@ {
            Some(TextKey::Title)
        } else if name == "artist"@ {
            Some(TextKey::Artist)
        } else if name == "album"@ {
            Some(TextKey::Album)
        } else if name == "genre"@ {
            Some(TextKey::Genre)
        } else if name == "year"@ {
            Some(TextKey::Year)
        } else if name == "comment"@ {
            Some(TextKey::Comment)
        } else if name == "arguments"@ {
            Some(TextKey::Arguments)
        } else if name == "copyright"@ {
            Some(TextKey::Copyright)
        } else if name == "path"@ {
            Some(TextKey::Path)
        } else if name == "newpath"@ {
            Some(TextKey::NewPath)
        } else if name == "codec"@ {
            Some(TextKey::Codec)
        } else if name == "albumart"@ {
            Some(TextKey::AlbumArt)
        } else {
            None
        }
    }

    /// The name under which the field is written.
    pub(crate) fn label(self) -> (word: &'static str)
        ensures
            word@ == self.name(),
    {
        match self {
            TextKey::Title => "title",
            TextKey::Artist => "artist",
            TextKey::Album => "album",
            TextKey::Genre => "genre",
            TextKey::Year => "year",
            TextKey::Comment => "comment",
            TextKey::Arguments => "arguments",
            TextKey::Copyright => "copyright",
            TextKey::Path => "path",
            TextKey::NewPath => "newpath",
            TextKey::Codec => "codec",
            TextKey::AlbumArt => "albumart",
        }
    }

    /// Looks up the text field named by `chars[from..to]`.
    pub(crate) fn lookup(chars: &Vec<char>, from: usize, to: usize) -> (key: Option<TextKey>)
        requires
            from <= to <= chars.len(),
        ensures
            key == TextKey::named(chars@.subrange(from as int, to as int)),
    {
        if range_is(chars, from, to, "title") {
            Some(TextKey::Title)
        } else if range_is(chars, from, to, "artist") {
            Some(TextKey::Artist)
        } else if range_is(chars, from, to, "album") {
            Some(TextKey::Album)
        } else if range_is(chars, from, to, "genre") {
            Some(TextKey::Genre)
        } else if range_is(chars, from, to, "year") {
            Some(TextKey::Year)
        } else if range_is(chars, from, to, "comment") {
            Some(TextKey::Comment)
        } else if range_is(chars, from, to, "arguments") {
            Some(TextKey::Arguments)
        } else if range_is(chars, from, to, "copyright") {
            Some(TextKey::Copyright)
        } else if range_is(chars, from, to, "path") {
            Some(TextKey::Path)
        } else if range_is(chars, from, to, "newpath") {
            Some(TextKey::NewPath)
        } else if range_is(chars, from, to, "codec") {
            Some(TextKey::Codec)
        } else if range_is(chars, from, to, "albumart") {
            Some(TextKey::AlbumArt)
        } else {
            None
        }
    }
}

impl NumberKey {
    /// The name under which the field is written.
    pub open spec fn name(self) -> Seq<char> {
        match self {
            NumberKey::Id => "id"@,
            NumberKey::Track => "track"@,
            NumberKey::Songs => "songs"@,
        }
    }

    /// The numeric field that `name` names, if any.
    pub open spec fn named(name: Seq<char>) -> Option<NumberKey> {
        if name == "id"@ {
            Some(NumberKey::Id)
        } else if name == "track"@ {
            Some(NumberKey::Track)
        } else if name == "songs"@ {
            Some(NumberKey::Songs)
        } else {
            None
        }
    }

    /// The name under which the field is written.
    pub(crate) fn label(self) -> (word: &'static str)
        ensures
            word@ == self.name(),
    {
        match self {
            NumberKey::Id => "id",
            NumberKey::Track => "track",
            NumberKey::Songs => "songs",
        }
    }

    /// Looks up the numeric field named by `chars[from..to]`.
    pub(crate) fn lookup(chars: &Vec<char>, from: usize, to: usize) -> (key: Option<NumberKey>)
        requires
            from <= to <= chars.len(),
        ensures
            key == NumberKey::named(chars@.subrange(from as int, to as int)),
    {
        if range_is(chars, from, to, "id") {
            Some(NumberKey::Id)
        } else if range_is(chars, from, to, "track") {
            Some(NumberKey::Track)
        } else if range_is(chars, from, to, "songs") {
            Some(NumberKey::Songs)
        } else {
            None
        }
    }
}

/// Characters that a field name may consist of.
pub open spec fn is_name_char(c: char) -> bool {
    ('a' <= c && c <= 'z') || ('A' <= c && c <= 'Z') || ('0' <= c && c <= '9') || c == '_' || c
        == '-' || c == '.'
}

/// Whether `name` could be the name of a field: not empty, and made of
/// letters, digits, `_`, `-` and `.` only.
pub open spec fn is_field_name(name: Seq<char>) -> bool {
    name.len() > 0 && forall|i: int| 0 <= i < name.len() ==> is_name_char(#[trigger] name[i])
}

/// A line without the carriage return that may end it.
pub open spec fn without_return(raw: Seq<char>) -> Seq<char> {
    if raw.len() > 0 && raw.last() == '\r' {
        raw.drop_last()
    } else {
        raw
    }
}

/// What the field `name=rest` says.
pub open spec fn classify_field(name: Seq<char>, rest: Seq<char>) -> LineView {
    match TextKey::named(name) {
        Some(key) => match unescape(rest) {
            Some(value) => LineView::Text(key, value),
            None => LineView::Bad,
        },
        None => match NumberKey::named(name) {
            Some(key) => match parse_decimal(rest) {
                Some(value) => LineView::Number(key, value),
                None => LineView::Bad,
            },
            None => if is_field_name(name) {
                LineView::Extra
            } else {
                LineView::Bad
            },
        },
    }
}

/// What a line of text says. `raw` is the line without its line feed.
pub open spec fn classify(raw: Seq<char>) -> LineView {
    let line = without_return(raw);
    if line.len() == 0 {
        LineView::Blank
    } else if line == "[album]"@ {
        LineView::AlbumOpen
    } else if line == "[/album]"@ {
        LineView::AlbumClose
    } else if line == "[song]"@ {
        LineView::SongOpen
    } else if line == "[/song]"@ {
        LineView::SongClose
    } else {
        let at = position_of(line, '=');
        if at >= line.len() {
            LineView::Bad
        } else {
            classify_field(line.take(at), line.skip(at + 1))
        }
    }
}

impl LineView {
    /// Lines that the writer produces: markers and known fields.
    pub open spec fn written(self) -> bool {
        !(self is Blank || self is Extra || self is Bad)
    }
}

/// How a line is written, without its line feed. Only markers and known
/// fields have a written form.
pub open spec fn render(line: LineView) -> Seq<char> {
    match line {
        LineView::AlbumOpen => "[album]"@,
        LineView::AlbumClose => "[/album]"@,
        LineView::SongOpen => "[song]"@,
        LineView::SongClose => "[/song]"@,
        LineView::Text(key, value) => key.name() + seq!['='] + escape(value),
        LineView::Number(key, value) => key.name() + seq!['='] + decimal(value as nat),
        _ => Seq::empty(),
    }
}

/// Reads the line `chars[from..to]`.
pub(crate) fn read_line(chars: &Vec<char>, from: usize, to: usize) -> (line: Line)
    requires
        from <= to <= chars.len(),
    ensures
        line@ == classify(chars@.subrange(from as int, to as int)),
{
    let ghost raw = chars@.subrange(from as int, to as int);
    let end = if from < to && chars[to - 1] == '\r' {
        to - 1
    } else {
        to
    };
    let ghost line = chars@.subrange(from as int, end as int);
    assert(line =~= without_return(raw));
    if from == end {
        Line::Blank
    } else if range_is(chars, from, end, "[album]") {
        Line::AlbumOpen
    } else if range_is(chars, from, end, "[/album]") {
        Line::AlbumClose
    } else if range_is(chars, from, end, "[song]") {
        Line::SongOpen
    } else if range_is(chars, from, end, "[/song]") {
        Line::SongClose
    } else {
        let at = find_in_range(chars, from, end, '=');
        if at >= end {
            Line::Bad
        } else {
            assert(line.take(at - from) =~= chars@.subrange(from as int, at as int));
            assert(line.skip(at - from + 1) =~= chars@.subrange(at + 1, end as int));
            read_field(chars, from, at, end)
        }
    }
}

/// Reads the field whose name is `chars[from..at]` and whose written value
/// is `chars[at + 1..to]`.
fn read_field(chars: &Vec<char>, from: usize, at: usize, to: usize) -> (line: Line)
    requires
        from <= at < to <= chars.len(),
    ensures
        line@ == classify_field(
            chars@.subrange(from as int, at as int),
            chars@.subrange(at + 1, to as int),
        ),
{
    match TextKey::lookup(chars, from, at) {
        Some(key) => match read_escaped(chars, at + 1, to) {
            Some(value) => Line::Text(key, value),
            None => Line::Bad,
        },
        None => match NumberKey::lookup(chars, from, at) {
            Some(key) => match read_decimal(chars, at + 1, to) {
                Some(value) => Line::Number(key, value),
                None => Line::Bad,
            },
            None => if names_a_field(chars, from, at) {
                Line::Extra
            } else {
                Line::Bad
            },
        },
    }
}

/// Whether `chars[from..to]` could be the name of a field.
fn names_a_field(chars: &Vec<char>, from: usize, to: usize) -> (ok: bool)
    requires
        from <= to <= chars.len(),
    ensures
        ok == is_field_name(chars@.subrange(from as int, to as int)),
{
    let ghost name = chars@.subrange(from as int, to as int);
    if from == to {
        return false;
    }
    let mut i: usize = from;
    while i < to
        invariant
            from <= i <= to <= chars.len(),
            name == chars@.subrange(from as int, to as int),
            forall|j: int| 0 <= j < i - from ==> is_name_char(#[trigger] name[j]),
        decreases to - i,
    {
        let c = chars[i];
        let fits = ('a' <= c && c <= 'z') || ('A' <= c && c <= 'Z') || ('0' <= c && c <= '9') || c
            == '_' || c == '-' || c == '.';
        if !fits {
            assert(!is_name_char(name[i - from]));
            return false;
        }
        i += 1;
    }
    true
}

/// Appends the text field `key=value` and a line feed to `out`.
pub(crate) fn push_text_field(out: &mut String, key: TextKey, value: &str)
    ensures
        final(out)@ == old(out)@ + render(LineView::Text(key, value@)) + seq!['\n'],
{
    out.append(key.label());
    out.push('=');
    push_escaped(out, value);
    out.push('\n');
    assert(out@ =~= old(out)@ + render(LineView::Text(key, value@)) + seq!['\n']);
}

/// Appends the numeric field `key=value` and a line feed to `out`.
pub(crate) fn push_number_field(out: &mut String, key: NumberKey, value: u64)
    ensures
        final(out)@ == old(out)@ + render(LineView::Number(key, value)) + seq!['\n'],
{
    out.append(key.label());
    out.push('=');
    push_decimal(out, value);
    out.push('\n');
    assert(out@ =~= old(out)@ + render(LineView::Number(key, value)) + seq!['\n']);
}

/// Appends a block marker and a line feed to `out`.
pub(crate) fn push_marker(out: &mut String, marker: Marker)
    ensures
        final(out)@ == old(out)@ + render(marker.line()) + seq!['\n'],
{
    match marker {
        Marker::AlbumOpen => out.append("[album]"),
        Marker::AlbumClose => out.append("[/album]"),
        Marker::SongOpen => out.append("[song]"),
        Marker::SongClose => out.append("[/song]"),
    }
    out.push('\n');
}

/// Brings the spelling of every field name and marker into view.
proof fn reveal_spellings()
    ensures
        "title"@ =~= seq!['t', 'i', 't', 'l', 'e'],
        "artist"@ =~= seq!['a', 'r', 't', 'i', 's', 't'],
        "album"@ =~= seq!['a', 'l', 'b', 'u', 'm'],
        "genre"@ =~= seq!['g', 'e', 'n', 'r', 'e'],
        "year"@ =~= seq!['y', 'e', 'a', 'r'],
        "comment"@ =~= seq!['c', 'o', 'm', 'm', 'e', 'n', 't'],
        "arguments"@ =~= seq!['a', 'r', 'g', 'u', 'm', 'e', 'n', 't', 's'],
        "copyright"@ =~= seq!['c', 'o', 'p', 'y', 'r', 'i', 'g', 'h', 't'],
        "path"@ =~= seq!['p', 'a', 't', 'h'],
        "newpath"@ =~= seq!['n', 'e', 'w', 'p', 'a', 't', 'h'],
        "codec"@ =~= seq!['c', 'o', 'd', 'e', 'c'],
        "albumart"@ =~= seq!['a', 'l', 'b', 'u', 'm', 'a', 'r', 't'],
        "id"@ =~= seq!['i', 'd'],
        "track"@ =~= seq!['t', 'r', 'a', 'c', 'k'],
        "songs"@ =~= seq!['s', 'o', 'n', 'g', 's'],
        "[album]"@ =~= seq!['[', 'a', 'l', 'b', 'u', 'm', ']'],
        "[/album]"@ =~= seq!['[', '/', 'a', 'l', 'b', 'u', 'm', ']'],
        "[song]"@ =~= seq!['[', 's', 'o', 'n', 'g', ']'],
        "[/song]"@ =~= seq!['[', '/', 's', 'o', 'n', 'g', ']'],
{
    reveal_strlit("title");
    reveal_strlit("artist");
    reveal_strlit("album");
    reveal_strlit("genre");
    reveal_strlit("year");
    reveal_strlit("comment");
    reveal_strlit("arguments");
    reveal_strlit("copyright");
    reveal_strlit("path");
    reveal_strlit("newpath");
    reveal_strlit("codec");
    reveal_strlit("albumart");
    reveal_strlit("id");
    reveal_strlit("track");
    reveal_strlit("songs");
    reveal_strlit("[album]");
    reveal_strlit("[/album]");
    reveal_strlit("[song]");
    reveal_strlit("[/song]");
}

/// A name is a run of lower-case letters.
pub open spec fn is_plain_word(word: Seq<char>) -> bool {
    word.len() > 0 && forall|i: int| 0 <= i < word.len() ==> 'a' <= #[trigger] word[i] <= 'z'
}

/// Each text field is found again under its own name, and the name is a
/// plain word.
pub proof fn lemma_text_key_name(key: TextKey)
    ensures
        TextKey::named(key.name()) == Some(key),
        is_plain_word(key.name()),
{
    reveal_spellings();
    let name = key.name();
    assert(name.len() == 5 ==> name[2] == 't' || name[2] == 'b' || name[2] == 'n' || name[2]
        == 'd');
    assert(name.len() == 4 ==> name[0] == 'y' || name[0] == 'p');
    assert(name.len() == 9 ==> name[0] == 'a' || name[0] == 'c');
    assert(name.len() == 7 ==> name[0] == 'c' || name[0] == 'n');
    assert("title"@[2] == 't' && "album"@[2] == 'b' && "genre"@[2] == 'n' && "codec"@[2] == 'd');
    assert("year"@[0] == 'y' && "path"@[0] == 'p');
    assert("arguments"@[0] == 'a' && "copyright"@[0] == 'c');
    assert("comment"@[0] == 'c' && "newpath"@[0] == 'n');
}

/// Each numeric field is found again under its own name, which names no
/// text field, and the name is a plain word.
pub proof fn lemma_number_key_name(key: NumberKey)
    ensures
        TextKey::named(key.name()) is None,
        NumberKey::named(key.name()) == Some(key),
        is_plain_word(key.name()),
{
    reveal_spellings();
}

/// What a written field says: its name up to the first `=`, then its value.
proof fn lemma_classify_written_field(name: Seq<char>, rest: Seq<char>)
    requires
        is_plain_word(name),
        rest.len() == 0 || rest.last() != '\r',
    ensures
        classify(name + seq!['='] + rest) == classify_field(name, rest),
{
    let line = name + seq!['='] + rest;
    reveal_spellings();
    assert(line[0] == name[0]);
    assert(line.last() != '\r') by {
        if rest.len() == 0 {
            assert(line.last() == '=');
        } else {
            assert(line.last() == rest.last());
        }
    }
    assert(without_return(line) == line);
    assert forall|j: int| 0 <= j < name.len() implies line[j] != '=' by {
        assert(line[j] == name[j]);
    }
    assert(line[name.len() as int] == '=');
    lemma_position_of_is(line, '=', name.len() as int);
    assert(line.take(name.len() as int) =~= name);
    assert(line.skip(name.len() as int + 1) =~= rest);
}

/// Reading a written line gives the line back, and a written line holds no
/// line feed.
pub proof fn lemma_classify_render(line: LineView)
    requires
        line.written(),
    ensures
        classify(render(line)) == line,
        position_of(render(line), '\n') == render(line).len(),
{
    let text = render(line);
    match line {
        LineView::Text(key, value) => {
            lemma_text_key_name(key);
            lemma_escape_line_safe(value);
            lemma_unescape_escape(value);
            let rest = escape(value);
            if rest.len() > 0 {
                assert(rest[rest.len() - 1] != '\r');
            }
            lemma_classify_written_field(key.name(), rest);
            assert forall|j: int| 0 <= j < text.len() implies text[j] != '\n' by {
                if j < key.name().len() {
                    assert(text[j] == key.name()[j]);
                } else if j > key.name().len() {
                    assert(text[j] == rest[j - key.name().len() - 1]);
                }
            }
        },
        LineView::Number(key, value) => {
            lemma_number_key_name(key);
            lemma_decimal_digits(value as nat);
            let rest = decimal(value as nat);
            assert(is_digit(rest[rest.len() - 1]));
            lemma_classify_written_field(key.name(), rest);
            assert forall|j: int| 0 <= j < text.len() implies text[j] != '\n' by {
                if j < key.name().len() {
                    assert(text[j] == key.name()[j]);
                } else if j > key.name().len() {
                    assert(is_digit(rest[j - key.name().len() - 1]));
                    assert(text[j] == rest[j - key.name().len() - 1]);
                }
            }
        },
        _ => {
            reveal_spellings();
        },
    }
    lemma_position_of_is(text, '\n', text.len() as int);
}

} // verus!
