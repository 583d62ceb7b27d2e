//! Label texts for nodes and edges: plain strings escaped for quoting,
//! escape-strings that keep their backslash sequences, and raw HTML labels.

use vstd::prelude::*;

verus! {

use vstd::string::StrSliceExecFns;
use vstd::string::StringExecFns;
use crate::text::push_char;

/// The character for one hexadecimal digit.
pub open spec fn hex_digit_char(d: nat) -> char {
    if d < 10 {
        crate::text::digit_char(d)
    } else if d == 10 {
        'a'
    } else if d == 11 {
        'b'
    } else if d == 12 {
        'c'
    } else if d == 13 {
        'd'
    } else if d == 14 {
        'e'
    } else {
        'f'
    }
}

/// The hexadecimal rendering of a natural number, most significant digit
/// first.
pub open spec fn hex_str(n: nat) -> Seq<char>
    decreases n,
{
    if n < 16 {
        seq![hex_digit_char(n)]
    } else {
        hex_str(n / 16) + seq![hex_digit_char(n % 16)]
    }
}

fn hex_digit(d: u32) -> (r: char)
    requires
        d < 16,
    ensures
        r == hex_digit_char(d as nat),
{
    match d {
        0 => '0',
        1 => '1',
        2 => '2',
        3 => '3',
        4 => '4',
        5 => '5',
        6 => '6',
        7 => '7',
        8 => '8',
        9 => '9',
        10 => 'a',
        11 => 'b',
        12 => 'c',
        13 => 'd',
        14 => 'e',
        _ => 'f',
    }
}

fn push_hex(s: &mut String, n: u32)
    ensures
        final(s)@ == old(s)@ + hex_str(n as nat),
    decreases n,
{
    if n < 16 {
        push_char(s, hex_digit(n));
        proof {
            assert(old(s)@.push(hex_digit_char(n as nat)) =~= old(s)@ + hex_str(n as nat));
        }
    } else {
        push_hex(s, n / 16);
        push_char(s, hex_digit(n % 16));
        proof {
            assert((old(s)@ + hex_str(n as nat / 16)).push(hex_digit_char(n as nat % 16)) =~= old(
                s,
            )@ + hex_str(n as nat));
        }
    }
}

/// How one character is escaped for a quoted label: the usual named escapes,
/// printable ASCII as itself, and everything else as a `\u{..}` escape.
pub open spec fn esc_char(c: char) -> Seq<char> {
    if c == '\t' {
        "\\t"@
    } else if c == '\r' {
        "\\r"@
    } else if c == '\n' {
        "\\n"@
    } else if c == '\\' {
        "\\\\"@
    } else if c == '\'' {
        "\\'"@
    } else if c == '"' {
        "\\\""@
    } else if 0x20 <= (c as u32) && (c as u32) < 0x7f {
        seq![c]
    } else {
        "\\u{"@ + hex_str(c as nat) + "}"@
    }
}

/// An escaped text, character by character.
pub open spec fn escaped(s: Seq<char>) -> Seq<char>
    decreases s.len(),
{
    if s.len() == 0 {
        Seq::empty()
    } else {
        escaped(s.drop_last()) + esc_char(s.last())
    }
}

/// An escaped text whose backslashes pass through unescaped, so that
/// Graphviz escape sequences such as `\l` keep their meaning.
pub open spec fn esc_char_keep_backslash(c: char) -> Seq<char> {
    if c == '\\' {
        seq![c]
    } else {
        esc_char(c)
    }
}

pub open spec fn escaped_keep_backslash(s: Seq<char>) -> Seq<char>
    decreases s.len(),
{
    if s.len() == 0 {
        Seq::empty()
    } else {
        escaped_keep_backslash(s.drop_last()) + esc_char_keep_backslash(s.last())
    }
}

fn push_esc_char(s: &mut String, c: char)
    ensures
        final(s)@ == old(s)@ + esc_char(c),
{
    if c == '\t' {
        s.append("\\t");
    } else if c == '\r' {
        s.append("\\r");
    } else if c == '\n' {
        s.append("\\n");
    } else if c == '\\' {
        s.append("\\\\");
    } else if c == '\'' {
        s.append("\\'");
    } else if c == '"' {
        s.append("\\\"");
    } else if 0x20 <= (c as u32) && (c as u32) < 0x7f {
        push_char(s, c);
        proof {
            assert(old(s)@.push(c) =~= old(s)@ + seq![c]);
        }
    } else {
        s.append("\\u{");
        push_hex(s, c as u32);
        s.append("}");
        proof {
            vstd::utf8::char_is_scalar(c);
        }
    }
}

/// The text for a Graphviz label on a node or an edge.
pub enum LabelText {
    /// Text kept as is; backslashes are escaped.
    LabelStr(String),
    /// Graphviz escape-string text: backslashes start escape sequences such
    /// as `\l` and pass through unescaped.
    EscStr(String),
    /// A Graphviz HTML label, printed exactly as given between `<` and `>`.
    HtmlStr(String),
}

/// What a label text renders as, quotes or delimiters included.
pub open spec fn label_dot(l: LabelText) -> Seq<char> {
    match l {
        LabelText::LabelStr(s) => "\""@ + escaped(s@) + "\""@,
        LabelText::EscStr(s) => "\""@ + escaped_keep_backslash(s@) + "\""@,
        LabelText::HtmlStr(s) => "<"@ + s@ + ">"@,
    }
}

impl LabelText {
    /// Renders this text as a string suitable for a label in a DOT file,
    /// quotes or delimiters included.
    pub fn to_dot_string(&self) -> (r: String)
        ensures
            r@ == label_dot(*self),
    {
        match self {
            LabelText::LabelStr(s) => {
                let mut out = "\"".to_owned();
                let ghost head = out@;
                let len = s.as_str().unicode_len();
                let mut i: usize = 0;
                proof {
                    assert(out@ =~= head + escaped(s@.take(0)));
                }
                while i < len
                    invariant
                        i <= len,
                        len == s@.len(),
                        out@ == head + escaped(s@.take(i as int)),
                    decreases len - i,
                {
                    push_esc_char(&mut out, s.as_str().get_char(i));
                    proof {
                        assert(s@.take(i + 1).drop_last() =~= s@.take(i as int));
                        assert(s@.take(i + 1).last() == s@[i as int]);
                        assert(out@ =~= head + escaped(s@.take(i + 1)));
                    }
                    i += 1;
                }
                out.append("\"");
                proof {
                    assert(s@.take(s@.len() as int) =~= s@);
                    assert(out@ =~= label_dot(*self));
                }
                out
            },
            LabelText::EscStr(s) => {
                let mut out = "\"".to_owned();
                let ghost head = out@;
                let len = s.as_str().unicode_len();
                let mut i: usize = 0;
                proof {
                    assert(out@ =~= head + escaped_keep_backslash(s@.take(0)));
                }
                while i < len
                    invariant
                        i <= len,
                        len == s@.len(),
                        out@ == head + escaped_keep_backslash(s@.take(i as int)),
                    decreases len - i,
                {
                    let c = s.as_str().get_char(i);
                    if c == '\\' {
                        push_char(&mut out, c);
                        proof {
                            assert(out@ =~= (head + escaped_keep_backslash(s@.take(i as int)))
                                + seq![c]);
                        }
                    } else {
                        push_esc_char(&mut out, c);
                    }
                    proof {
                        assert(s@.take(i + 1).drop_last() =~= s@.take(i as int));
                        assert(s@.take(i + 1).last() == s@[i as int]);
                        assert(out@ =~= head + escaped_keep_backslash(s@.take(i + 1)));
                    }
                    i += 1;
                }
                out.append("\"");
                proof {
                    assert(s@.take(s@.len() as int) =~= s@);
                    assert(out@ =~= label_dot(*self));
                }
                out
            },
            LabelText::HtmlStr(s) => {
                let mut out = "<".to_owned();
                out.append(s.as_str());
                out.append(">");
                out
            },
        }
    }
}

/// How one character is escaped for inclusion in a Graphviz HTML label.
pub open spec fn html_esc_char(c: char) -> Seq<char> {
    if c == '&' {
        "&amp;"@
    } else if c == '"' {
        "&quot;"@
    } else if c == '<' {
        "&lt;"@
    } else if c == '>' {
        "&gt;"@
    } else {
        seq![c]
    }
}

/// A text with its HTML-significant characters escaped.
pub open spec fn html_escaped(s: Seq<char>) -> Seq<char>
    decreases s.len(),
{
    if s.len() == 0 {
        Seq::empty()
    } else {
        html_escaped(s.drop_last()) + html_esc_char(s.last())
    }
}

/// Escapes tags so the text can stand in a Graphviz HTML label.
pub fn escape_html(s: &str) -> (r: String)
    ensures
        r@ == html_escaped(s@),
{
    let mut out = String::new();
    let len = s.unicode_len();
    let mut i: usize = 0;
    proof {
        assert(out@ =~= html_escaped(s@.take(0)));
    }
    while i < len
        invariant
            i <= len,
            len == s@.len(),
            out@ == html_escaped(s@.take(i as int)),
        decreases len - i,
    {
        let c = s.get_char(i);
        if c == '&' {
            out.append("&amp;");
        } else if c == '"' {
            out.append("&quot;");
        } else if c == '<' {
            out.append("&lt;");
        } else if c == '>' {
            out.append("&gt;");
        } else {
            push_char(&mut out, c);
            proof {
                assert(out@ =~= html_escaped(s@.take(i as int)) + seq![c]);
            }
        }
        proof {
            assert(s@.take(i + 1).drop_last() =~= s@.take(i as int));
            assert(s@.take(i + 1).last() == s@[i as int]);
            assert(out@ =~= html_escaped(s@.take(i + 1)));
        }
        i += 1;
    }
    proof {
        assert(s@.take(s@.len() as int) =~= s@);
    }
    out
}

} // verus!
