//! Shell-safe credential files for the guest.
//!
//! Credentials are written as lines `export NAME='VALUE'` that the guest's
//! shell profile sources, so each name must be a plain shell identifier and
//! each value is single-quoted.

use vstd::prelude::*;

use crate::text::{chars_of, debug_quoted, debug_str, push_char};

verus! {

/// A first character of an environment variable name: an ASCII letter or `_`.
pub open spec fn is_env_name_start(c: char) -> bool {
    ('A' <= c && c <= 'Z') || ('a' <= c && c <= 'z') || c == '_'
}

/// A later character of an environment variable name: an ASCII letter, an
/// ASCII digit or `_`.
pub open spec fn is_env_name_char(c: char) -> bool {
    is_env_name_start(c) || ('0' <= c && c <= '9')
}

/// `[A-Za-z_][A-Za-z0-9_]*`
pub open spec fn valid_env_name(s: Seq<char>) -> bool {
    &&& s.len() > 0
    &&& is_env_name_start(s[0])
    &&& forall|i: int| 1 <= i < s.len() ==> #[trigger] is_env_name_char(s[i])
}

/// A valid name is exactly a non-empty text of ASCII letters, ASCII digits
/// and `_` that does not start with a digit.
pub proof fn lemma_valid_env_name_chars(name: Seq<char>)
    ensures
        valid_env_name(name) <==> (name.len() > 0 && !('0' <= name[0] && name[0] <= '9') && forall|
            i: int,
        |
            0 <= i < name.len() ==> ('A' <= #[trigger] name[i] && name[i] <= 'Z') || ('a' <= name[i]
                && name[i] <= 'z') || ('0' <= name[i] && name[i] <= '9') || name[i] == '_'),
{
    if valid_env_name(name) {
        assert forall|i: int| 0 <= i < name.len() implies ('A' <= #[trigger] name[i] && name[i]
            <= 'Z') || ('a' <= name[i] && name[i] <= 'z') || ('0' <= name[i] && name[i] <= '9')
            || name[i] == '_' by {
            if i >= 1 {
                assert(is_env_name_char(name[i]));
            }
        }
    }
    if name.len() > 0 && !('0' <= name[0] && name[0] <= '9') && forall|i: int|
        0 <= i < name.len() ==> ('A' <= #[trigger] name[i] && name[i] <= 'Z') || ('a' <= name[i]
            && name[i] <= 'z') || ('0' <= name[i] && name[i] <= '9') || name[i] == '_' {
        assert(is_env_name_start(name[0]));
        assert forall|i: int| 1 <= i < name.len() implies #[trigger] is_env_name_char(name[i]) by {
            assert(0 <= i < name.len());
        }
    }
}

/// Whether `name` can be exported as a shell variable.
pub fn is_valid_env_name(name: &str) -> (r: bool)
    ensures
        r == valid_env_name(name@),
{
    let v = chars_of(name);
    if v.len() == 0 {
        return false;
    }
    let first = v[0];
    if !(('A' <= first && first <= 'Z') || ('a' <= first && first <= 'z') || first == '_') {
        return false;
    }
    let mut i: usize = 1;
    while i < v.len()
        invariant
            v@ == name@,
            1 <= i <= v.len(),
            forall|k: int| 1 <= k < i ==> #[trigger] is_env_name_char(v@[k]),
        decreases v.len() - i,
    {
        let c = v[i];
        if !(('A' <= c && c <= 'Z') || ('a' <= c && c <= 'z') || c == '_' || ('0' <= c && c
            <= '9')) {
            assert(!is_env_name_char(v@[i as int]));
            return false;
        }
        i = i + 1;
    }
    true
}

/// What stands for one character of a value inside single quotes: the
/// character itself, or `'\''` for a single quote (close the quote, an
/// escaped quote, open the quote again).
pub open spec fn quote_char(c: char) -> Seq<char> {
    if c == '\'' {
        seq!['\'', '\\', '\'', '\'']
    } else {
        seq![c]
    }
}

/// The text between the outer single quotes of a quoted value.
pub open spec fn quote_body(s: Seq<char>) -> Seq<char>
    decreases s.len(),
{
    if s.len() == 0 {
        Seq::empty()
    } else {
        quote_char(s[0]) + quote_body(s.drop_first())
    }
}

/// `s` as one single-quoted shell word.
pub open spec fn shell_quoted(s: Seq<char>) -> Seq<char> {
    seq!['\''] + quote_body(s) + seq!['\'']
}

/// The body of a concatenation is the concatenation of the bodies.
pub proof fn lemma_quote_body_append(a: Seq<char>, b: Seq<char>)
    ensures
        quote_body(a + b) == quote_body(a) + quote_body(b),
    decreases a.len(),
{
    if a.len() == 0 {
        assert(a + b =~= b);
        assert(quote_body(a) =~= Seq::<char>::empty());
        assert(quote_body(a) + quote_body(b) =~= quote_body(b));
    } else {
        assert((a + b).drop_first() =~= a.drop_first() + b);
        lemma_quote_body_append(a.drop_first(), b);
        assert(quote_body(a + b) =~= quote_char(a[0]) + quote_body(a.drop_first() + b));
        assert(quote_body(a) + quote_body(b) =~= quote_char(a[0]) + (quote_body(a.drop_first())
            + quote_body(b)));
    }
}

/// Quotes `value` for a POSIX shell: `'value'`, with each `'` written `'\''`.
pub fn shell_quote(value: &str) -> (r: String)
    ensures
        r@ == shell_quoted(value@),
{
    let v = chars_of(value);
    let mut r = String::new();
    push_char(&mut r, '\'');
    let mut i: usize = 0;
    assert(v@.take(0) =~= Seq::<char>::empty());
    assert(r@ =~= seq!['\''] + quote_body(v@.take(0)));
    while i < v.len()
        invariant
            v@ == value@,
            i <= v.len(),
            r@ == seq!['\''] + quote_body(v@.take(i as int)),
        decreases v.len() - i,
    {
        let c = v[i];
        proof {
            assert(v@.take(i + 1) =~= v@.take(i as int) + seq![c]);
            lemma_quote_body_append(v@.take(i as int), seq![c]);
            assert(seq![c].drop_first() =~= Seq::<char>::empty());
            assert(quote_body(seq![c].drop_first()) =~= Seq::<char>::empty());
            assert(quote_body(seq![c]) =~= quote_char(c));
        }
        if c == '\'' {
            push_char(&mut r, '\'');
            push_char(&mut r, '\\');
            push_char(&mut r, '\'');
            push_char(&mut r, '\'');
        } else {
            push_char(&mut r, c);
        }
        i = i + 1;
        assert(r@ =~= seq!['\''] + quote_body(v@.take(i as int)));
    }
    push_char(&mut r, '\'');
    assert(v@.take(v.len() as int) =~= v@);
    r
}

/// A character that ends a shell word when it stands outside quotes.
pub open spec fn is_word_end(c: char) -> bool {
    c == ' ' || c == '\t' || c == '\n' || c == ';' || c == '&' || c == '|' || c == '<' || c
        == '>' || c == '(' || c == ')'
}

/// A character that the shell would expand or treat specially outside
/// quotes (in bash too: braces); words that hold one unquoted are not read
/// here.
pub open spec fn is_shell_special(c: char) -> bool {
    c == '$' || c == '`' || c == '"' || c == '*' || c == '?' || c == '[' || c == '#' || c == '~'
        || c == '{' || c == '}' || c == '!'
}

/// Puts `c` in front of the value of a word that was read.
pub open spec fn prepend_value(c: char, r: Option<(Seq<char>, Seq<char>)>) -> Option<
    (Seq<char>, Seq<char>),
> {
    match r {
        Some((value, rest)) => Some((seq![c] + value, rest)),
        None => None,
    }
}

/// Puts `s` in front of the value of a word that was read.
pub open spec fn prepend_values(s: Seq<char>, r: Option<(Seq<char>, Seq<char>)>) -> Option<
    (Seq<char>, Seq<char>),
> {
    match r {
        Some((value, rest)) => Some((s + value, rest)),
        None => None,
    }
}

/// How a POSIX shell reads one word from the front of `s`, for words made of
/// single-quoted parts, backslash escapes (a backslash before a newline
/// continues the line) and ordinary characters: the word's value and what
/// follows the word. `quoted` tells whether reading
/// starts inside single quotes. `None` for an unterminated quote, a trailing
/// backslash or an unquoted expansion character.
pub open spec fn read_word(s: Seq<char>, quoted: bool) -> Option<(Seq<char>, Seq<char>)>
    decreases s.len(),
{
    if s.len() == 0 {
        if quoted {
            None
        } else {
            Some((Seq::empty(), s))
        }
    } else if quoted {
        if s[0] == '\'' {
            read_word(s.drop_first(), false)
        } else {
            prepend_value(s[0], read_word(s.drop_first(), true))
        }
    } else if s[0] == '\'' {
        read_word(s.drop_first(), true)
    } else if s[0] == '\\' {
        if s.len() >= 2 && s[1] == '\n' {
            read_word(s.skip(2), false)
        } else if s.len() >= 2 {
            prepend_value(s[1], read_word(s.skip(2), false))
        } else {
            None
        }
    } else if is_word_end(s[0]) {
        Some((Seq::empty(), s))
    } else if is_shell_special(s[0]) {
        None
    } else {
        prepend_value(s[0], read_word(s.drop_first(), false))
    }
}

proof fn lemma_read_quote_body(s: Seq<char>, rest: Seq<char>)
    ensures
        read_word(quote_body(s) + seq!['\''] + rest, true) == prepend_values(
            s,
            read_word(rest, false),
        ),
    decreases s.len(),
{
    let t = quote_body(s) + seq!['\''] + rest;
    if s.len() == 0 {
        assert(quote_body(s) =~= Seq::<char>::empty());
        assert(t.drop_first() =~= rest);
        assert(s =~= Seq::<char>::empty());
        match read_word(rest, false) {
            Some((v, r)) => {
                assert(s + v =~= v);
            },
            None => {},
        }
    } else {
        let c = s[0];
        let x = quote_body(s.drop_first()) + seq!['\''] + rest;
        lemma_read_quote_body(s.drop_first(), rest);
        assert(s =~= seq![c] + s.drop_first());
        if c == '\'' {
            assert(t =~= seq!['\'', '\\', '\'', '\''] + x);
            let t1 = t.drop_first();
            assert(t1 =~= seq!['\\', '\'', '\''] + x);
            assert(t1.skip(2) =~= seq!['\''] + x);
            assert(t1.skip(2).drop_first() =~= x);
            assert(read_word(t, true) == read_word(t1, false));
            assert(read_word(t1, false) == prepend_value('\'', read_word(t1.skip(2), false)));
            assert(read_word(t1.skip(2), false) == read_word(x, true));
        } else {
            assert(t =~= seq![c] + x);
            assert(t.drop_first() =~= x);
        }
        match read_word(rest, false) {
            Some((v, r)) => {
                assert(seq![c] + (s.drop_first() + v) =~= s + v);
            },
            None => {},
        }
    }
}

/// Reading back a quoted value gives the value: the shell reads
/// `shell_quoted(v)` as one word whose value is `v`, and stops where the
/// quoted text ends, provided what follows it ends a word.
pub proof fn lemma_shell_quote_reads_back(v: Seq<char>, rest: Seq<char>)
    requires
        rest.len() == 0 || is_word_end(rest[0]),
    ensures
        read_word(shell_quoted(v) + rest, false) == Some((v, rest)),
{
    let t = shell_quoted(v) + rest;
    assert(t.drop_first() =~= quote_body(v) + seq!['\''] + rest);
    lemma_read_quote_body(v, rest);
    assert(read_word(rest, false) == Some((Seq::<char>::empty(), rest)));
    assert(v + Seq::<char>::empty() =~= v);
}

/// The environment as pairs of name and value.
pub open spec fn env_view<'a>(env: Seq<(&'a str, &'a str)>) -> Seq<(Seq<char>, Seq<char>)> {
    env.map_values(|p: (&'a str, &'a str)| (p.0@, p.1@))
}

/// The line that exports `name` with the quoted `value`.
pub open spec fn env_line(name: Seq<char>, value: Seq<char>) -> Seq<char> {
    "export "@ + name + "="@ + shell_quoted(value) + "\n"@
}

/// The credentials file for an environment: one `env_line` per entry, in order.
pub open spec fn env_payload(env: Seq<(Seq<char>, Seq<char>)>) -> Seq<char>
    decreases env.len(),
{
    if env.len() == 0 {
        Seq::empty()
    } else {
        env_line(env[0].0, env[0].1) + env_payload(env.drop_first())
    }
}

/// Every name of the environment is a valid variable name.
pub open spec fn all_env_names_valid(env: Seq<(Seq<char>, Seq<char>)>) -> bool {
    forall|i: int| 0 <= i < env.len() ==> #[trigger] valid_env_name(env[i].0)
}

/// `i` is the first entry whose name is not a valid variable name.
pub open spec fn first_invalid_env_name(env: Seq<(Seq<char>, Seq<char>)>, i: int) -> bool {
    &&& 0 <= i < env.len()
    &&& !valid_env_name(env[i].0)
    &&& forall|j: int| 0 <= j < i ==> #[trigger] valid_env_name(env[j].0)
}

proof fn lemma_env_payload_push(env: Seq<(Seq<char>, Seq<char>)>, e: (Seq<char>, Seq<char>))
    ensures
        env_payload(env.push(e)) == env_payload(env) + env_line(e.0, e.1),
    decreases env.len(),
{
    if env.len() == 0 {
        assert(env.push(e).drop_first() =~= env);
        assert(env_payload(env) =~= Seq::<char>::empty());
        assert(env_payload(env.push(e)) =~= env_line(e.0, e.1));
    } else {
        assert(env.push(e).drop_first() =~= env.drop_first().push(e));
        lemma_env_payload_push(env.drop_first(), e);
        assert(env_payload(env.push(e)) =~= env_line(env[0].0, env[0].1) + (env_payload(
            env.drop_first(),
        ) + env_line(e.0, e.1)));
    }
}

/// The number of leading characters of `t` that may appear in a variable name.
pub open spec fn name_prefix_len(t: Seq<char>) -> nat
    decreases t.len(),
{
    if t.len() > 0 && is_env_name_char(t[0]) {
        1 + name_prefix_len(t.drop_first())
    } else {
        0
    }
}

/// How the shell reads one `export NAME=WORD` line from the front of `s`: the
/// name, the value and the text after the line's newline.
pub open spec fn read_env_line(s: Seq<char>) -> Option<(Seq<char>, Seq<char>, Seq<char>)> {
    if "export "@.is_prefix_of(s) {
        let t = s.skip("export "@.len() as int);
        let k = name_prefix_len(t);
        let name = t.take(k as int);
        if k < t.len() && t[k as int] == '=' && valid_env_name(name) {
            match read_word(t.skip(k as int + 1), false) {
                Some((value, rest)) => if rest.len() > 0 && rest[0] == '\n' {
                    Some((name, value, rest.drop_first()))
                } else {
                    None
                },
                None => None,
            }
        } else {
            None
        }
    } else {
        None
    }
}

/// How the shell reads a credentials file made of `export` lines: the
/// variables it sets, in order.
pub open spec fn read_env_payload(s: Seq<char>) -> Option<Seq<(Seq<char>, Seq<char>)>>
    decreases s.len(),
{
    if s.len() == 0 {
        Some(Seq::empty())
    } else {
        match read_env_line(s) {
            Some((name, value, rest)) => if rest.len() < s.len() {
                match read_env_payload(rest) {
                    Some(more) => Some(seq![(name, value)] + more),
                    None => None,
                }
            } else {
                None
            },
            None => None,
        }
    }
}

proof fn lemma_name_prefix_len(name: Seq<char>, rest: Seq<char>)
    requires
        forall|i: int| 0 <= i < name.len() ==> #[trigger] is_env_name_char(name[i]),
        rest.len() > 0,
        !is_env_name_char(rest[0]),
    ensures
        name_prefix_len(name + rest) == name.len(),
    decreases name.len(),
{
    if name.len() == 0 {
        assert(name + rest =~= rest);
    } else {
        assert((name + rest).drop_first() =~= name.drop_first() + rest);
        assert(is_env_name_char(name[0]));
        assert forall|i: int| 0 <= i < name.drop_first().len() implies #[trigger] is_env_name_char(
            name.drop_first()[i],
        ) by {
            assert(is_env_name_char(name[i + 1]));
        }
        lemma_name_prefix_len(name.drop_first(), rest);
    }
}

proof fn lemma_read_env_line(name: Seq<char>, value: Seq<char>, rest: Seq<char>)
    requires
        valid_env_name(name),
    ensures
        read_env_line(env_line(name, value) + rest) == Some((name, value, rest)),
{
    reveal_strlit("export ");
    reveal_strlit("=");
    reveal_strlit("\n");
    let s = env_line(name, value) + rest;
    let after = "\n"@ + rest;
    assert(s =~= "export "@ + (name + ("="@ + (shell_quoted(value) + after))));
    assert(s.take(7) =~= "export "@);
    let t = s.skip(7);
    assert(t =~= name + ("="@ + (shell_quoted(value) + after)));
    assert forall|i: int| 0 <= i < name.len() implies #[trigger] is_env_name_char(name[i]) by {
        if i > 0 {
            assert(is_env_name_char(name[i]));
        }
    }
    lemma_name_prefix_len(name, "="@ + (shell_quoted(value) + after));
    let k = name.len();
    assert(t.take(k as int) =~= name);
    assert(t[k as int] == '=');
    assert(t.skip(k as int + 1) =~= shell_quoted(value) + after);
    lemma_shell_quote_reads_back(value, after);
    assert(after.drop_first() =~= rest);
}

/// What the guest's shell reads back from a credentials file is exactly the
/// environment that was written, whatever the values hold.
pub proof fn lemma_env_payload_reads_back(env: Seq<(Seq<char>, Seq<char>)>)
    requires
        all_env_names_valid(env),
    ensures
        read_env_payload(env_payload(env)) == Some(env),
    decreases env.len(),
{
    if env.len() == 0 {
        assert(env_payload(env) =~= Seq::<char>::empty());
        assert(env =~= Seq::<(Seq<char>, Seq<char>)>::empty());
    } else {
        let tail = env.drop_first();
        assert forall|i: int| 0 <= i < tail.len() implies #[trigger] valid_env_name(tail[i].0) by {
            assert(valid_env_name(env[i + 1].0));
        }
        lemma_env_payload_reads_back(tail);
        assert(valid_env_name(env[0].0));
        lemma_read_env_line(env[0].0, env[0].1, env_payload(tail));
        reveal_strlit("export ");
        assert(env_line(env[0].0, env[0].1).len() > 0);
        assert(seq![(env[0].0, env[0].1)] + tail =~= env);
    }
}

/// Errors in preparing guest credentials.
#[derive(Debug)]
pub enum CredentialsError {
    /// An environment variable name is not a shell identifier.
    InvalidEnvName { name: String },
    /// The credentials file name is a path rather than a plain file name.
    NotAFileName,
}

impl CredentialsError {
    /// The text that describes the error.
    pub open spec fn describe(&self) -> Seq<char> {
        match self {
            CredentialsError::InvalidEnvName { name } => "Invalid environment variable name: "@
                + debug_str(name@),
            CredentialsError::NotAFileName => "Expected a credentials filename, not a path."@,
        }
    }

    /// The text that describes the error.
    pub fn message(&self) -> (r: String)
        ensures
            r@ == self.describe(),
    {
        match self {
            CredentialsError::InvalidEnvName { name } => {
                let mut m = String::from_str("Invalid environment variable name: ");
                let quoted = debug_quoted(name.as_str());
                m.append(quoted.as_str());
                m
            },
            CredentialsError::NotAFileName => String::from_str(
                "Expected a credentials filename, not a path.",
            ),
        }
    }
}

/// Writes the environment as `export NAME='VALUE'` lines, refusing any name
/// that is not a shell identifier.
pub fn serialize_env(environment: &[(&str, &str)]) -> (r: Result<String, CredentialsError>)
    ensures
        match r {
            Ok(s) => all_env_names_valid(env_view(environment@)) && s@ == env_payload(
                env_view(environment@),
            ),
            Err(e) => exists|i: int|
                first_invalid_env_name(env_view(environment@), i) && (e matches CredentialsError::InvalidEnvName {
                    name,
                } && name@ == environment@[i].0@),
        },
{
    let ghost env = env_view(environment@);
    let mut credentials = String::new();
    let mut i: usize = 0;
    assert(env.take(0) =~= Seq::<(Seq<char>, Seq<char>)>::empty());
    while i < environment.len()
        invariant
            env == env_view(environment@),
            i <= environment.len(),
            forall|j: int| 0 <= j < i ==> #[trigger] valid_env_name(env[j].0),
            credentials@ == env_payload(env.take(i as int)),
        decreases environment.len() - i,
    {
        let (name, value) = environment[i];
        assert(env[i as int] == (name@, value@));
        if !is_valid_env_name(name) {
            assert(first_invalid_env_name(env, i as int));
            return Err(CredentialsError::InvalidEnvName { name: name.to_owned() });
        }
        let ghost before = credentials@;
        credentials.append("export ");
        credentials.append(name);
        credentials.append("=");
        let quoted = shell_quote(value);
        credentials.append(quoted.as_str());
        credentials.append("\n");
        proof {
            assert(env.take(i + 1) =~= env.take(i as int).push(env[i as int]));
            lemma_env_payload_push(env.take(i as int), env[i as int]);
            assert(credentials@ =~= before + env_line(name@, value@));
        }
        i = i + 1;
    }
    assert(env.take(environment.len() as int) =~= env);
    Ok(credentials)
}

/// A single path component naming a file: not empty, without `/`, and
/// neither `.` nor `..`. These are the names whose `Path::file_name` is
/// the name itself.
pub open spec fn is_plain_file_name(s: Seq<char>) -> bool {
    &&& s.len() > 0
    &&& !s.contains('/')
    &&& s != seq!['.']
    &&& s != seq!['.', '.']
}

/// Whether `name` is a plain file name rather than a path.
pub fn is_file_name(name: &str) -> (r: bool)
    ensures
        r == is_plain_file_name(name@),
{
    let v = chars_of(name);
    let n: usize = v.len();
    if n == 0 {
        return false;
    }
    if n == 1 && v[0] == '.' {
        assert(v@ =~= seq!['.']);
        return false;
    }
    if n == 2 && v[0] == '.' && v[1] == '.' {
        assert(v@ =~= seq!['.', '.']);
        return false;
    }
    let mut i: usize = 0;
    while i < n
        invariant
            v@ == name@,
            n == v@.len(),
            i <= n,
            forall|k: int| 0 <= k < i ==> v@[k] != '/',
        decreases n - i,
    {
        if v[i] == '/' {
            assert(v@.contains('/')) by {
                assert(v@[i as int] == '/');
            }
            return false;
        }
        i = i + 1;
    }
    assert(n == 1 ==> v@ != seq!['.']) by {
        if n == 1 && v@ == seq!['.'] {
            assert(v@[0] == '.');
        }
    }
    assert(n == 2 ==> v@ != seq!['.', '.']) by {
        if n == 2 && v@ == seq!['.', '.'] {
            assert(v@[0] == '.' && v@[1] == '.');
        }
    }
    true
}

/// Credentials ready to be sent to a guest: the VM, the file name in the
/// guest's config directory, and the file's text.
#[derive(Debug)]
pub struct GuestCredentials {
    pub vm: String,
    pub credentials_name: String,
    pub credentials: String,
}

/// Prepares the credentials file `credentials_name` for the guest `vm`:
/// the environment is serialized first, then the file name is checked.
pub fn install_guest_env(
    vm: &str,
    credentials_name: &str,
    environment: &[(&str, &str)],
) -> (r: Result<GuestCredentials, CredentialsError>)
    ensures
        match r {
            Ok(g) => {
                &&& all_env_names_valid(env_view(environment@))
                &&& is_plain_file_name(credentials_name@)
                &&& g.vm@ == vm@
                &&& g.credentials_name@ == credentials_name@
                &&& g.credentials@ == env_payload(env_view(environment@))
            },
            Err(CredentialsError::InvalidEnvName { name }) => exists|i: int|
                first_invalid_env_name(env_view(environment@), i) && name@ == environment@[i].0@,
            Err(CredentialsError::NotAFileName) => all_env_names_valid(env_view(environment@))
                && !is_plain_file_name(credentials_name@),
        },
{
    let credentials = match serialize_env(environment) {
        Ok(c) => c,
        Err(e) => {
            return Err(e);
        },
    };
    if !is_file_name(credentials_name) {
        return Err(CredentialsError::NotAFileName);
    }
    Ok(GuestCredentials {
        vm: vm.to_owned(),
        credentials_name: credentials_name.to_owned(),
        credentials,
    })
}

} // verus!
