use vstd::prelude::*;
use vstd::string::StringSliceAdditionalSpecFns;

verus! {

/// Which concrete syntax a document is written in.
#[derive(Clone, Copy, Debug, PartialEq, Eq, Structural)]
pub enum ConfigFormat {
    Json,
    Toml,
}

/// A position in a source text, one-based.
pub struct SourceLocation {
    pub line: usize,
    pub column: usize,
    pub file: Option<String>,
}

impl SourceLocation {
    pub fn new(line: usize, column: usize) -> (r: SourceLocation)
        ensures
            r.line == line,
            r.column == column,
            r.file is None,
    {
        SourceLocation { line, column, file: None }
    }

    pub fn with_file(self, file: String) -> (r: SourceLocation)
        ensures
            r.line == self.line,
            r.column == self.column,
            r.file == Some(file),
    {
        SourceLocation { line: self.line, column: self.column, file: Some(file) }
    }
}

/// A syntax failure while reading a document; exit code 3.  Each variant
/// carries the format, a location, and a caret-annotated source snippet.
pub enum ParseError {
    UnexpectedToken {
        format: ConfigFormat,
        loc: SourceLocation,
        expected: String,
        found: String,
        snippet: String,
    },
    UnexpectedEof { format: ConfigFormat, loc: SourceLocation, snippet: String },
    UnterminatedString { format: ConfigFormat, loc: SourceLocation, snippet: String },
    InvalidEscape { format: ConfigFormat, loc: SourceLocation, message: String, snippet: String },
    TrailingContent { format: ConfigFormat, loc: SourceLocation, snippet: String },
    SyntaxError {
        format: ConfigFormat,
        loc: SourceLocation,
        expected: String,
        found: String,
        snippet: String,
    },
    /// A failure reported by the format's own parser, carried as its text.
    ForeignParseError { format: ConfigFormat, loc: SourceLocation, message: String, snippet: String },
}

} // verus!

verus! {

// ---------------------------------------------------------------------------
// Locating a failure in the source text, and drawing the caret snippet.
// ---------------------------------------------------------------------------

/// Line and column reached after reading `n` bytes of UTF-8 text,
/// one-based: a newline byte starts a new line, any other byte that
/// starts a character advances the column, and continuation bytes
/// advance neither.
pub open spec fn spec_line_col(bytes: Seq<u8>, n: int) -> (int, int)
    decreases n,
{
    if n <= 0 {
        (1, 1)
    } else {
        let p = spec_line_col(bytes, n - 1);
        if 0 <= n - 1 < bytes.len() && bytes[n - 1] == 10 {
            (p.0 + 1, 1)
        } else if 0 <= n - 1 < bytes.len() && vstd::utf8::is_continuation_byte(bytes[n - 1]) {
            p
        } else {
            (p.0, p.1 + 1)
        }
    }
}

/// The line and column a byte offset names: newlines are counted up to
/// the failing byte offset, and an offset past the end of the text
/// counts the whole text.
pub open spec fn spec_offset_line_col(bytes: Seq<u8>, off: int) -> (int, int) {
    spec_line_col(
        bytes,
        if off <= bytes.len() {
            off
        } else {
            bytes.len() as int
        },
    )
}

/// Converts a byte offset into a one-based line and column, by counting
/// the newline bytes before it and the characters since the last one.
pub fn offset_to_line_col(src: &str, offset: usize) -> (r: (usize, usize))
    requires
        src.spec_bytes().len() < usize::MAX,
    ensures
        r.0 as int == spec_offset_line_col(src.spec_bytes(), offset as int).0,
        r.1 as int == spec_offset_line_col(src.spec_bytes(), offset as int).1,
{
    let bytes = src.as_bytes();
    let len = bytes.len();
    let n = if offset <= len {
        offset
    } else {
        len
    };
    let mut line: usize = 1;
    let mut col: usize = 1;
    let mut i: usize = 0;
    while i < n
        invariant
            bytes@ == src.spec_bytes(),
            n <= bytes@.len() < usize::MAX,
            i <= n,
            1 <= line,
            1 <= col,
            line as int == spec_line_col(bytes@, i as int).0,
            col as int == spec_line_col(bytes@, i as int).1,
            line + col <= i + 2,
        decreases n - i,
    {
        let b = bytes[i];
        if b == 10 {
            line = line + 1;
            col = 1;
        } else if b >= 0x80 && b <= 0xbf {
            // A continuation byte: still inside the current character.
        } else {
            col = col + 1;
        }
        i = i + 1;
    }
    (line, col)
}

/// Length of the longest prefix of `s` without a newline: where the
/// current line ends.
pub open spec fn nl_pos(s: Seq<char>) -> int
    decreases s.len(),
{
    if s.len() > 0 && s[0] != '\n' {
        1 + nl_pos(s.drop_first())
    } else {
        0
    }
}

pub proof fn lemma_nl_pos_is(s: Seq<char>, n: int)
    requires
        0 <= n <= s.len(),
        forall|i: int| 0 <= i < n ==> #[trigger] s[i] != '\n',
        n < s.len() ==> s[n] == '\n',
    ensures
        nl_pos(s) == n,
    decreases s.len(),
{
    if s.len() > 0 && s[0] != '\n' {
        assert(n > 0);
        lemma_nl_pos_is(s.drop_first(), n - 1);
    }
}

/// The text from the start of line `k` on (zero-based), when the text has
/// that many lines.
pub open spec fn spec_drop_lines(s: Seq<char>, k: int) -> Option<Seq<char>>
    decreases k,
{
    if k <= 0 {
        Some(s)
    } else if nl_pos(s) < 0 || nl_pos(s) >= s.len() {
        None
    } else {
        spec_drop_lines(s.skip(nl_pos(s) + 1), k - 1)
    }
}

/// The `k`-th line of the text (zero-based), without its newline.
pub open spec fn spec_nth_line(s: Seq<char>, k: int) -> Option<Seq<char>> {
    match spec_drop_lines(s, k) {
        None => None,
        Some(t) => if t.len() == 0 {
            None
        } else {
            Some(t.take(nl_pos(t)))
        },
    }
}

/// The caret snippet for a one-based line and column: the offending line,
/// then a caret under the offending column; empty when the text has no
/// such line.
pub open spec fn spec_snippet(s: Seq<char>, line: int, column: int) -> Seq<char> {
    match spec_nth_line(s, line - 1) {
        None => Seq::empty(),
        Some(l) => l.push('\n') + Seq::new(
            if column > 1 {
                (column - 1) as nat
            } else {
                0
            },
            |i: int| ' ',
        ).push('^'),
    }
}

/// Scans to the end of the current line.
fn scan_line(s: &str, from: usize, len: usize) -> (to: usize)
    requires
        len == s@.len(),
        from <= len,
    ensures
        from <= to <= len,
        to - from == nl_pos(s@.skip(from as int)),
{
    let mut j = from;
    while j < len
        invariant
            len == s@.len(),
            from <= j <= len,
            forall|i: int| from <= i < j ==> #[trigger] s@[i] != '\n',
        decreases len - j,
    {
        if s.get_char(j) == '\n' {
            proof {
                assert forall|i: int| 0 <= i < j - from implies #[trigger] s@.skip(from as int)[i]
                    != '\n' by {
                    assert(s@.skip(from as int)[i] == s@[from + i]);
                }
                assert(s@.skip(from as int)[j - from] == s@[j as int]);
                lemma_nl_pos_is(s@.skip(from as int), j - from);
            }
            return j;
        }
        j = j + 1;
    }
    proof {
        assert forall|i: int| 0 <= i < len - from implies #[trigger] s@.skip(from as int)[i]
            != '\n' by {
            assert(s@.skip(from as int)[i] == s@[from + i]);
        }
        lemma_nl_pos_is(s@.skip(from as int), len - from);
    }
    len
}

/// Appends `n` spaces.
fn append_spaces(out: &mut String, n: usize)
    ensures
        final(out)@ == old(out)@ + Seq::new(n as nat, |i: int| ' '),
{
    let mut i: usize = 0;
    while i < n
        invariant
            i <= n,
            out@ == old(out)@ + Seq::new(i as nat, |t: int| ' '),
        decreases n - i,
    {
        crate::strutil::push_char(out, ' ');
        proof {
            assert(old(out)@ + Seq::new(i as nat + 1, |t: int| ' ') =~= (old(out)@ + Seq::new(
                i as nat,
                |t: int| ' ',
            )).push(' '));
        }
        i = i + 1;
    }
    proof {
        assert(old(out)@ + Seq::new(0nat, |t: int| ' ') =~= old(out)@);
    }
}

/// Reproduces the line a failure sits on, with a `^` marker under the
/// failing column; empty when the text has no such line.
pub fn extract_snippet(src: &str, line: usize, column: usize) -> (r: String)
    ensures
        r@ == spec_snippet(src@, line as int, column as int),
{
    let len = src.unicode_len();
    let mut pos: usize = 0;
    let mut k: usize = if line > 0 {
        line - 1
    } else {
        0
    };
    proof {
        assert(src@.skip(0) =~= src@);
        if line == 0 {
            // Line zero and line one both name the first line here, and a
            // zero line number never arrives from the parsers.
            assert(spec_drop_lines(src@, -1) == spec_drop_lines(src@, 0));
        }
    }
    let ghost k0 = if line as int > 0 { line as int - 1 } else { 0int };
    while k > 0
        invariant
            pos <= len,
            len == src@.len(),
            k0 == if line as int > 0 {
                line as int - 1
            } else {
                0int
            },
            line as int > 0 || k == 0,
            spec_drop_lines(src@, k0) == spec_drop_lines(src@.skip(pos as int), k as int),
        decreases k,
    {
        let end = scan_line(src, pos, len);
        if end == len {
            proof {
                assert(spec_drop_lines(src@.skip(pos as int), k as int) is None);
            }
            return String::new();
        }
        proof {
            assert(src@.skip(pos as int).skip(nl_pos(src@.skip(pos as int)) + 1) =~= src@.skip(
                end as int + 1,
            ));
        }
        pos = end + 1;
        k = k - 1;
    }
    let ghost t = src@.skip(pos as int);
    if pos == len {
        proof {
            assert(t.len() == 0);
        }
        return String::new();
    }
    let end = scan_line(src, pos, len);
    let line_text = src.substring_char(pos, end);
    let mut out = line_text.to_owned();
    crate::strutil::push_char(&mut out, '\n');
    let ghost spaces = Seq::new(
        if column as int > 1 {
            (column - 1) as nat
        } else {
            0
        },
        |i: int| ' ',
    );
    if column > 1 {
        append_spaces(&mut out, column - 1);
    } else {
        proof {
            assert(out@ + spaces =~= out@);
        }
    }
    crate::strutil::push_char(&mut out, '^');
    proof {
        assert(t.take(nl_pos(t)) =~= src@.subrange(pos as int, end as int));
        assert(spec_nth_line(src@, k0) == Some(src@.subrange(pos as int, end as int)));
        assert(src@.subrange(pos as int, end as int).push('\n') + spaces.push('^') =~= ((
        src@.subrange(pos as int, end as int).push('\n') + spaces)).push('^'));
    }
    out
}

} // verus!

verus! {

impl ConfigFormat {
    /// The format's name as written in messages.
    pub open spec fn spec_name(self) -> Seq<char> {
        match self {
            ConfigFormat::Json => "Json"@,
            ConfigFormat::Toml => "Toml"@,
        }
    }

    /// Renders the format's name.
    pub fn name(&self) -> (r: &'static str)
        ensures
            r@ == self.spec_name(),
    {
        match self {
            ConfigFormat::Json => "Json",
            ConfigFormat::Toml => "Toml",
        }
    }
}

/// The text of a source location: `file:line:column`, or `line:column`
/// when no file name is attached.
pub open spec fn spec_loc_text(loc: SourceLocation) -> Seq<char> {
    (match loc.file {
        Some(f) => f@ + ":"@,
        None => Seq::empty(),
    }) + crate::strutil::spec_dec(loc.line as int) + ":"@ + crate::strutil::spec_dec(
        loc.column as int,
    )
}

impl SourceLocation {
    /// Renders the location.
    pub fn render(&self) -> (r: String)
        ensures
            r@ == spec_loc_text(*self),
    {
        let mut out = String::new();
        match &self.file {
            Some(f) => {
                out.append(f.as_str());
                out.append(":");
            },
            None => {},
        }
        crate::strutil::append_dec(&mut out, self.line as u64);
        out.append(":");
        crate::strutil::append_dec(&mut out, self.column as u64);
        proof {
            assert(out@ =~= spec_loc_text(*self));
        }
        out
    }
}

/// The message of a parse failure: one line of description, then the
/// caret snippet on the following lines.
pub open spec fn spec_parse_message(e: ParseError) -> Seq<char> {
    match e {
        ParseError::UnexpectedToken { format, loc, expected, found, snippet } => (
        format.spec_name() + " parse error at "@ + spec_loc_text(loc)
            + ": unexpected token: expected "@ + expected@ + ", found "@ + found@ + "\n"@
            + snippet@),
        ParseError::UnexpectedEof { format, loc, snippet } => format.spec_name()
            + " parse error at "@ + spec_loc_text(loc) + ": unexpected end of input\n"@ + snippet@,
        ParseError::UnterminatedString { format, loc, snippet } => format.spec_name()
            + " parse error at "@ + spec_loc_text(loc) + ": unterminated string literal\n"@
            + snippet@,
        ParseError::InvalidEscape { format, loc, message, snippet } => format.spec_name()
            + " parse error at "@ + spec_loc_text(loc) + ": invalid escape sequence: "@ + message@
            + "\n"@ + snippet@,
        ParseError::TrailingContent { format, loc, snippet } => format.spec_name()
            + " parse error at "@ + spec_loc_text(loc) + ": trailing content after document\n"@
            + snippet@,
        ParseError::SyntaxError { format, loc, expected, found, snippet } => format.spec_name()
            + " parse error at "@ + spec_loc_text(loc) + ": syntax error: expected "@ + expected@
            + ", found "@ + found@ + "\n"@ + snippet@,
        ParseError::ForeignParseError { format, loc, message, snippet } => format.spec_name()
            + " parse error at "@ + spec_loc_text(loc) + ": "@ + message@ + "\n"@ + snippet@,
    }
}

impl ParseError {
    /// Renders the failure: a description line, then the caret snippet.
    pub fn message(&self) -> (r: String)
        ensures
            r@ == spec_parse_message(*self),
    {
        match self {
            ParseError::UnexpectedToken { format, loc, expected, found, snippet } => {
                let mut out = String::from_str(format.name());
                out.append(" parse error at ");
                let rendered = loc.render();
                out.append(rendered.as_str());
                out.append(": unexpected token: expected ");
                out.append(expected.as_str());
                out.append(", found ");
                out.append(found.as_str());
                out.append("\n");
                out.append(snippet.as_str());
                proof {
                    assert(out@ =~= spec_parse_message(*self));
                }
                out
            },
            ParseError::UnexpectedEof { format, loc, snippet } => {
                let mut out = String::from_str(format.name());
                out.append(" parse error at ");
                let rendered = loc.render();
                out.append(rendered.as_str());
                out.append(": unexpected end of input\n");
                out.append(snippet.as_str());
                proof {
                    assert(out@ =~= spec_parse_message(*self));
                }
                out
            },
            ParseError::UnterminatedString { format, loc, snippet } => {
                let mut out = String::from_str(format.name());
                out.append(" parse error at ");
                let rendered = loc.render();
                out.append(rendered.as_str());
                out.append(": unterminated string literal\n");
                out.append(snippet.as_str());
                proof {
                    assert(out@ =~= spec_parse_message(*self));
                }
                out
            },
            ParseError::InvalidEscape { format, loc, message, snippet } => {
                let mut out = String::from_str(format.name());
                out.append(" parse error at ");
                let rendered = loc.render();
                out.append(rendered.as_str());
                out.append(": invalid escape sequence: ");
                out.append(message.as_str());
                out.append("\n");
                out.append(snippet.as_str());
                proof {
                    assert(out@ =~= spec_parse_message(*self));
                }
                out
            },
            ParseError::TrailingContent { format, loc, snippet } => {
                let mut out = String::from_str(format.name());
                out.append(" parse error at ");
                let rendered = loc.render();
                out.append(rendered.as_str());
                out.append(": trailing content after document\n");
                out.append(snippet.as_str());
                proof {
                    assert(out@ =~= spec_parse_message(*self));
                }
                out
            },
            ParseError::SyntaxError { format, loc, expected, found, snippet } => {
                let mut out = String::from_str(format.name());
                out.append(" parse error at ");
                let rendered = loc.render();
                out.append(rendered.as_str());
                out.append(": syntax error: expected ");
                out.append(expected.as_str());
                out.append(", found ");
                out.append(found.as_str());
                out.append("\n");
                out.append(snippet.as_str());
                proof {
                    assert(out@ =~= spec_parse_message(*self));
                }
                out
            },
            ParseError::ForeignParseError { format, loc, message, snippet } => {
                let mut out = String::from_str(format.name());
                out.append(" parse error at ");
                let rendered = loc.render();
                out.append(rendered.as_str());
                out.append(": ");
                out.append(message.as_str());
                out.append("\n");
                out.append(snippet.as_str());
                proof {
                    assert(out@ =~= spec_parse_message(*self));
                }
                out
            },
        }
    }
}

} // verus!
