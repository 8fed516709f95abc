//! Shell quoting, SSH targets and how a finished command turns into a reply.
use vstd::prelude::*;
use crate::text::{chars_of, escape_quotes, escape_quotes_chars, quoted_quote, string_of, trim, trim_str};

verus! {

broadcast use vstd::string::group_string_axioms;

/// Whether `char::is_alphanumeric` holds of a character (Unicode
/// `Alphabetic` or `Numeric`).
pub uninterp spec fn unicode_alphanumeric(c: char) -> bool;

pub open spec fn ascii_alphanumeric(c: char) -> bool {
    ('0' <= c && c <= '9') || ('a' <= c && c <= 'z') || ('A' <= c && c <= 'Z')
}

/// Calls `char::is_alphanumeric`. Its result is named by
/// `unicode_alphanumeric`; on ASCII characters it holds exactly of the
/// letters and digits, as the Unicode tables that std follows give it.
#[verifier::external_body]
fn char_is_alphanumeric(c: char) -> (b: bool)
    ensures
        b == unicode_alphanumeric(c),
        (c as u32) < 128 ==> (b <==> ascii_alphanumeric(c)),
{
    c.is_alphanumeric()
}

/// A character that `shell_escape` leaves unquoted.
pub open spec fn shell_safe(c: char) -> bool {
    unicode_alphanumeric(c) || c == '_' || c == '-' || c == '.' || c == '/'
}

/// An ASCII character that `shell_escape` leaves unquoted: a letter, a digit,
/// `_`, `-`, `.` or `/`.
pub open spec fn ascii_shell_safe(c: char) -> bool {
    ascii_alphanumeric(c) || c == '_' || c == '-' || c == '.' || c == '/'
}

/// A text that `shell_escape` passes through unchanged.
pub open spec fn all_shell_safe(s: Seq<char>) -> bool {
    forall|i: int| 0 <= i < s.len() ==> shell_safe(#[trigger] s[i])
}

/// The shell word for `s`: `s` itself when every character is safe, else
/// `s` in single quotes with each single quote written as `'\''`.
pub open spec fn shell_escaped(s: Seq<char>) -> Seq<char> {
    if all_shell_safe(s) {
        s
    } else {
        seq!['\''] + escape_quotes(s) + seq!['\'']
    }
}

/// Quotes `s` as one word for a POSIX shell. The word reads back as `s`:
/// quoting undoes itself, whatever `s` holds.
pub fn shell_escape(s: &str) -> (r: String)
    ensures
        r@ == shell_escaped(s@),
        read_word(r@, false) == Some(s@),
        (forall|i: int| 0 <= i < s@.len() ==> ascii_shell_safe(#[trigger] s@[i])) ==> r@ == s@,
        (exists|i: int|
            0 <= i < s@.len() && (s@[i] as u32) < 128 && !ascii_shell_safe(#[trigger] s@[i]))
            ==> r@ == seq!['\''] + escape_quotes(s@) + seq!['\''],
{
    let v = chars_of(s);
    let mut safe = true;
    let mut i: usize = 0;
    while i < v.len()
        invariant
            i <= v.len(),
            v@ == s@,
            safe == (forall|k: int| 0 <= k < i ==> shell_safe(#[trigger] v@[k])),
            safe ==> (forall|k: int| 0 <= k < i ==> shell_literal(#[trigger] v@[k])),
            forall|k: int|
                0 <= k < i ==> ((v@[k] as u32) < 128 ==> (unicode_alphanumeric(#[trigger] v@[k])
                    <==> ascii_alphanumeric(v@[k]))),
        decreases v.len() - i,
    {
        let c = v[i];
        let ok = char_is_alphanumeric(c) || c == '_' || c == '-' || c == '.' || c == '/';
        safe = safe && ok;
        i = i + 1;
    }
    proof {
        if forall|i: int| 0 <= i < s@.len() ==> ascii_shell_safe(#[trigger] s@[i]) {
            assert forall|k: int| 0 <= k < v@.len() implies shell_safe(#[trigger] v@[k]) by {
                assert(ascii_shell_safe(s@[k]));
            }
        }
        if exists|i: int|
            0 <= i < s@.len() && (s@[i] as u32) < 128 && !ascii_shell_safe(#[trigger] s@[i]) {
            let i = choose|i: int|
                0 <= i < s@.len() && (s@[i] as u32) < 128 && !ascii_shell_safe(#[trigger] s@[i]);
            assert(!shell_safe(v@[i]));
        }
    }
    if safe {
        proof {
            lemma_read_plain(s@);
        }
        string_of(v.as_slice())
    } else {
        proof {
            lemma_read_quoted(s@);
            let w = seq!['\''] + escape_quotes(s@) + seq!['\''];
            assert(w.drop_first() =~= escape_quotes(s@) + seq!['\'']);
        }
        let mut r: Vec<char> = Vec::new();
        r.push('\'');
        let e = escape_quotes_chars(&v);
        let mut j: usize = 0;
        while j < e.len()
            invariant
                j <= e.len(),
                r@ == seq!['\''] + e@.take(j as int),
            decreases e.len() - j,
        {
            r.push(e[j]);
            assert(e@.take(j + 1) =~= e@.take(j as int).push(e@[j as int]));
            j = j + 1;
        }
        r.push('\'');
        assert(e@.take(e.len() as int) =~= e@);
        assert(r@ =~= seq!['\''] + escape_quotes(s@) + seq!['\'']);
        string_of(r.as_slice())
    }
}

// ─── Reading a shell word back ──────────────────────────────────────────────

/// Characters that a POSIX shell reads as themselves outside quotes.
pub open spec fn shell_literal(c: char) -> bool {
    !(c == ' ' || c == '\t' || c == '\n' || c == '\'' || c == '"' || c == '\\' || c == '$'
        || c == '`' || c == ';' || c == '&' || c == '|' || c == '<' || c == '>' || c == '('
        || c == ')' || c == '*' || c == '?' || c == '[' || c == ']' || c == '#' || c == '~'
        || c == '=' || c == '%' || c == '{' || c == '}' || c == '!')
}

/// The text a POSIX shell makes of the word `w`, read in the given quoting
/// state: single quotes keep everything up to the next single quote,
/// a backslash outside quotes keeps the character after it, and any other
/// character outside quotes must be a literal one. `None` where the word has
/// anything else in it or ends inside quotes.
pub open spec fn read_word(w: Seq<char>, quoted: bool) -> Option<Seq<char>>
    decreases w.len(),
{
    if w.len() == 0 {
        if quoted {
            None
        } else {
            Some(Seq::empty())
        }
    } else if quoted {
        if w[0] == '\'' {
            read_word(w.drop_first(), false)
        } else {
            match read_word(w.drop_first(), true) {
                Some(r) => Some(seq![w[0]] + r),
                None => None,
            }
        }
    } else if w[0] == '\'' {
        read_word(w.drop_first(), true)
    } else if w[0] == '\\' {
        if w.len() >= 2 {
            match read_word(w.skip(2), false) {
                Some(r) => Some(seq![w[1]] + r),
                None => None,
            }
        } else {
            None
        }
    } else if shell_literal(w[0]) {
        match read_word(w.drop_first(), false) {
            Some(r) => Some(seq![w[0]] + r),
            None => None,
        }
    } else {
        None
    }
}

proof fn lemma_escape_quotes_cons(c: char, t: Seq<char>)
    ensures
        escape_quotes(seq![c] + t) == (if c == '\'' {
            quoted_quote()
        } else {
            seq![c]
        }) + escape_quotes(t),
    decreases t.len(),
{
    if t.len() == 0 {
        assert((seq![c] + t).drop_last() =~= Seq::<char>::empty());
        assert(escape_quotes(Seq::<char>::empty()) =~= Seq::<char>::empty());
        assert(escape_quotes(seq![c] + t) =~= (if c == '\'' {
            quoted_quote()
        } else {
            seq![c]
        }) + escape_quotes(t));
    } else {
        lemma_escape_quotes_cons(c, t.drop_last());
        assert((seq![c] + t).drop_last() =~= seq![c] + t.drop_last());
        assert((seq![c] + t).last() == t.last());
        let head = if c == '\'' {
            quoted_quote()
        } else {
            seq![c]
        };
        let tail = if t.last() == '\'' {
            quoted_quote()
        } else {
            seq![t.last()]
        };
        assert(escape_quotes(seq![c] + t) =~= head + escape_quotes(t.drop_last()) + tail);
    }
}

proof fn lemma_read_quoted(s: Seq<char>)
    ensures
        read_word(escape_quotes(s) + seq!['\''], true) == Some(s),
    decreases s.len(),
{
    if s.len() == 0 {
        assert(escape_quotes(s) =~= Seq::<char>::empty());
        let w = escape_quotes(s) + seq!['\''];
        assert(w =~= seq!['\'']);
        assert(w.drop_first() =~= Seq::<char>::empty());
        assert(s =~= Seq::<char>::empty());
        assert(read_word(w, true) == read_word(w.drop_first(), false));
    } else {
        let c = s[0];
        let t = s.drop_first();
        assert(s =~= seq![c] + t);
        lemma_escape_quotes_cons(c, t);
        lemma_read_quoted(t);
        let rest = escape_quotes(t) + seq!['\''];
        if c == '\'' {
            let w = quoted_quote() + rest;
            assert(escape_quotes(s) + seq!['\''] =~= w);
            assert(w.drop_first() =~= seq!['\\', '\'', '\''] + rest);
            let u = w.drop_first();
            assert(u.skip(2) =~= seq!['\''] + rest);
            assert((seq!['\''] + rest).drop_first() =~= rest);
            assert(read_word(seq!['\''] + rest, false) == Some(t));
            assert(u[0] == '\\' && u[1] == '\'');
            assert(read_word(u, false) == Some(seq!['\''] + t));
            assert(w[0] == '\'');
            assert(read_word(w, true) == Some(seq!['\''] + t));
            assert(seq![c] + t =~= s);
        } else {
            let w = seq![c] + rest;
            assert(escape_quotes(s) + seq!['\''] =~= w);
            assert(w.drop_first() =~= rest);
            assert(w[0] == c);
            assert(read_word(w, true) == Some(seq![c] + t));
        }
    }
}

proof fn lemma_read_plain(s: Seq<char>)
    requires
        forall|i: int| 0 <= i < s.len() ==> shell_literal(#[trigger] s[i]),
    ensures
        read_word(s, false) == Some(s),
    decreases s.len(),
{
    if s.len() > 0 {
        assert(shell_literal(s[0]));
        let t = s.drop_first();
        assert forall|i: int| 0 <= i < t.len() implies shell_literal(#[trigger] t[i]) by {
            assert(t[i] == s[i + 1]);
        }
        lemma_read_plain(t);
        assert(seq![s[0]] + t =~= s);
    }
}

// ─── SSH and command outcomes ───────────────────────────────────────────────

/// `user@host`, or the host alone where no user is given.
pub open spec fn ssh_target_text(host: Seq<char>, user: Seq<char>) -> Seq<char> {
    if user.len() == 0 {
        host
    } else {
        user + seq!['@'] + host
    }
}

/// The SSH destination for a host and user.
pub fn ssh_target(host: &str, user: &str) -> (r: String)
    ensures
        r@ == ssh_target_text(host@, user@),
{
    if user.is_empty() {
        String::from_str(host)
    } else {
        let mut r = String::from_str(user);
        r.append("@");
        r.append(host);
        proof {
            reveal_strlit("@");
        }
        assert(r@ =~= user@ + seq!['@'] + host@);
        r
    }
}

/// The reply for a finished command: its trimmed error output where it
/// failed and wrote to standard error, else its trimmed standard output.
pub open spec fn outcome(success: bool, stdout: Seq<char>, stderr: Seq<char>) -> Result<
    Seq<char>,
    Seq<char>,
> {
    if !success && stderr.len() > 0 {
        Err(trim(stderr))
    } else {
        Ok(trim(stdout))
    }
}

/// Turns a finished command's exit status and output into the reply.
pub fn command_outcome(success: bool, stdout: &str, stderr: &str) -> (r: Result<String, String>)
    ensures
        match outcome(success, stdout@, stderr@) {
            Ok(o) => r matches Ok(x) && x@ == o,
            Err(e) => r matches Err(x) && x@ == e,
        },
{
    if !success && !stderr.is_empty() {
        Err(trim_str(stderr))
    } else {
        Ok(trim_str(stdout))
    }
}

} // verus!
