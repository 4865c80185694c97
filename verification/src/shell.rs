//! Shell quoting and the remote command line that runs Herdr over SSH.
use vstd::prelude::*;

use crate::text::{chars_of, push_str, string_from_chars};

verus! {

/// Characters that `shell_quote` leaves unquoted: ASCII letters and digits and `/._:-`.
pub open spec fn is_plain_char(c: char) -> bool {
    ||| ('a' <= c && c <= 'z')
    ||| ('A' <= c && c <= 'Z')
    ||| ('0' <= c && c <= '9')
    ||| c == '/'
    ||| c == '.'
    ||| c == '_'
    ||| c == ':'
    ||| c == '-'
}

/// A non-empty word made of plain characters only.
pub open spec fn is_plain_word(s: Seq<char>) -> bool {
    s.len() > 0 && forall|i: int| 0 <= i < s.len() ==> is_plain_char(#[trigger] s[i])
}

/// Every `'` replaced by `'"'"'`.
pub open spec fn escape_quotes(s: Seq<char>) -> Seq<char>
    decreases s.len(),
{
    if s.len() == 0 {
        Seq::empty()
    } else if s.last() == '\'' {
        escape_quotes(s.drop_last()) + seq!['\'', '"', '\'', '"', '\'']
    } else {
        escape_quotes(s.drop_last()).push(s.last())
    }
}

/// A plain word as it is; anything else inside single quotes, with its own quotes escaped.
pub open spec fn shell_quoted(s: Seq<char>) -> Seq<char> {
    if is_plain_word(s) {
        s
    } else {
        seq!['\''] + escape_quotes(s) + seq!['\'']
    }
}

/// Each word quoted and preceded by a space.
pub open spec fn quoted_arguments(words: Seq<Seq<char>>) -> Seq<char>
    decreases words.len(),
{
    if words.len() == 0 {
        Seq::empty()
    } else {
        quoted_arguments(words.drop_last()) + seq![' '] + shell_quoted(words.last())
    }
}

/// The `PATH` assignment that puts the usual per-user binary directories first.
pub open spec fn path_prefix() -> Seq<char> {
    "PATH=\"$HOME/.local/bin:$HOME/.cargo/bin:$HOME/bin:$PATH\" "@
}

/// The command line that runs `binary` with `arguments` on the remote host.
pub open spec fn remote_command_line(binary: Seq<char>, arguments: Seq<Seq<char>>) -> Seq<char> {
    path_prefix() + shell_quoted(binary) + quoted_arguments(arguments)
}

/// The views of a slice of string slices.
pub open spec fn words_of(arguments: Seq<&str>) -> Seq<Seq<char>> {
    arguments.map_values(|a: &str| a@)
}

pub fn is_plain(c: char) -> (r: bool)
    ensures
        r == is_plain_char(c),
{
    ('a' <= c && c <= 'z') || ('A' <= c && c <= 'Z') || ('0' <= c && c <= '9') || c == '/' || c
        == '.' || c == '_' || c == ':' || c == '-'
}

/// Appends `shell_quoted(value)` to `out`.
pub fn push_quoted(out: &mut Vec<char>, value: &Vec<char>)
    ensures
        final(out)@ == old(out)@ + shell_quoted(value@),
{
    let mut plain = value.len() > 0;
    let mut i: usize = 0;
    while i < value.len()
        invariant
            i <= value@.len(),
            plain == (value@.len() > 0 && forall|k: int| 0 <= k < i ==> is_plain_char(#[trigger] value@[k])),
        decreases value.len() - i,
    {
        plain = plain && is_plain(value[i]);
        i = i + 1;
    }
    if plain {
        let ghost start = out@;
        for k in 0..value.len()
            invariant
                out@ == start + value@.take(k as int),
        {
            out.push(value[k]);
            assert(value@.take(k + 1) == value@.take(k as int).push(value@[k as int]));
        }
        assert(value@.take(value@.len() as int) == value@);
        return;
    }
    let ghost start = out@;
    out.push('\'');
    for k in 0..value.len()
        invariant
            out@ == start + seq!['\''] + escape_quotes(value@.take(k as int)),
    {
        let c = value[k];
        assert(value@.take(k + 1).drop_last() == value@.take(k as int));
        if c == '\'' {
            out.push('\'');
            out.push('"');
            out.push('\'');
            out.push('"');
            out.push('\'');
        } else {
            out.push(c);
        }
    }
    assert(value@.take(value@.len() as int) == value@);
    out.push('\'');
}

/// Quotes a word for a POSIX shell, leaving plain words as they are.
pub fn shell_quote(value: &str) -> (r: String)
    ensures
        r@ == shell_quoted(value@),
{
    let mut out: Vec<char> = Vec::new();
    push_quoted(&mut out, &chars_of(value));
    string_from_chars(&out)
}

/// The remote command line, as characters.
pub fn remote_command_chars(binary: &str, arguments: &[&str]) -> (r: Vec<char>)
    ensures
        r@ == remote_command_line(binary@, words_of(arguments@)),
{
    let mut out: Vec<char> = Vec::new();
    push_str(&mut out, "PATH=\"$HOME/.local/bin:$HOME/.cargo/bin:$HOME/bin:$PATH\" ");
    push_quoted(&mut out, &chars_of(binary));
    let ghost head = out@;
    for i in 0..arguments.len()
        invariant
            out@ == head + quoted_arguments(words_of(arguments@).take(i as int)),
    {
        assert(words_of(arguments@).take(i + 1).drop_last() == words_of(arguments@).take(i as int));
        out.push(' ');
        push_quoted(&mut out, &chars_of(arguments[i]));
    }
    assert(words_of(arguments@).take(arguments@.len() as int) == words_of(arguments@));
    out
}

/// The command that runs `binary` with `arguments` on an SSH host, with the usual
/// per-user binary directories put first on the `PATH`.
pub fn remote_command(binary: &str, arguments: &[&str]) -> (r: String)
    ensures
        r@ == remote_command_line(binary@, words_of(arguments@)),
{
    string_from_chars(&remote_command_chars(binary, arguments))
}

}
