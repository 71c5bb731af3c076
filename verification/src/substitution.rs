//! Expansion of the references to variables in a word: `$name` and
//! `${name}`.

use vstd::prelude::*;
use crate::environment::Environment;
use crate::errors::{ErrorKind, InterpreterError, InterpreterResult};
use crate::stream::CharStream;
use crate::text::{is_white_space, string_of};

verus! {

/// Before a `$`, makes it stand for itself.
pub const ESCAPE: char = '\\';

/// Begins a reference to a variable.
pub const SUBSTITUTION: char = '$';

/// After a `$`, begins a name that runs to the next `}`.
pub const OPEN: char = '{';

/// Ends a name that began with `${`.
pub const CLOSE: char = '}';

/// The value that `name` stands for: what `env` binds it to, and the empty
/// text where it binds nothing.
pub open spec fn lookup(env: Map<Seq<char>, Seq<char>>, name: Seq<char>) -> Seq<char> {
    if env.contains_key(name) {
        env[name]
    } else {
        Seq::empty()
    }
}

/// Whether a name stops before `c`: at white space, and inside braces also at
/// the closing brace.
pub open spec fn ends_name(c: char, closing: bool) -> bool {
    is_white_space(c) || (closing && c == CLOSE)
}

/// The first place at or after `from` where a name stops, or the length of
/// `text` if it runs to the end.
pub open spec fn name_end(text: Seq<char>, from: int, closing: bool) -> int
    decreases text.len() - from,
{
    if from < 0 || from >= text.len() {
        text.len() as int
    } else if ends_name(text[from], closing) {
        from
    } else {
        name_end(text, from + 1, closing)
    }
}

/// What `delimited` makes of the text after a `${`, read from `from`.
pub open spec fn delimited_value(
    text: Seq<char>,
    env: Map<Seq<char>, Seq<char>>,
    from: int,
) -> Result<Seq<char>, ErrorKind> {
    let end = name_end(text, from, true);
    if end >= text.len() {
        Err(ErrorKind::UnclosedDelimiter)
    } else if text[end] == CLOSE {
        Ok(lookup(env, text.subrange(from, end)))
    } else {
        Err(ErrorKind::BadSubstitution)
    }
}

/// What `longest_match` makes of the text after a `$`, read from `from`.
pub open spec fn bare_value(text: Seq<char>, env: Map<Seq<char>, Seq<char>>, from: int) -> Seq<
    char,
> {
    lookup(env, text.subrange(from, name_end(text, from, false)))
}

/// The expansion of `text` from place `at` on, when `emitted` is what the
/// places before `at` have produced.
pub open spec fn expand(
    text: Seq<char>,
    env: Map<Seq<char>, Seq<char>>,
    at: int,
    emitted: Seq<char>,
) -> Result<Seq<char>, ErrorKind>
    decreases text.len() - at,
{
    if at < 0 || at >= text.len() {
        Ok(emitted)
    } else if text[at] != SUBSTITUTION {
        expand(text, env, at + 1, emitted.push(text[at]))
    } else if emitted.len() > 0 && emitted.last() == ESCAPE {
        expand(text, env, at + 1, emitted.drop_last().push(SUBSTITUTION))
    } else if at + 1 >= text.len() {
        expand(text, env, at + 1, emitted.push(SUBSTITUTION))
    } else if text[at + 1] == OPEN {
        match delimited_value(text, env, at + 2) {
            Ok(value) => {
                proof {
                    lemma_name_end(text, at + 2, true);
                }
                expand(text, env, name_end(text, at + 2, true) + 1, emitted + value)
            },
            Err(kind) => Err(kind),
        }
    } else if is_white_space(text[at + 1]) {
        expand(text, env, at + 1, emitted.push(SUBSTITUTION))
    } else {
        proof {
            lemma_name_end(text, at + 1, false);
        }
        expand(text, env, name_end(text, at + 1, false), emitted + bare_value(text, env, at + 1))
    }
}

/// The expansion of a whole word.
pub open spec fn substituted(text: Seq<char>, env: Map<Seq<char>, Seq<char>>) -> Result<
    Seq<char>,
    ErrorKind,
> {
    expand(text, env, 0, Seq::empty())
}

/// A name ends at or after the place where it is looked for, no character
/// before its end stops it, and the character at its end does, if there is
/// one.
pub proof fn lemma_name_end(text: Seq<char>, from: int, closing: bool)
    requires
        0 <= from <= text.len(),
    ensures
        from <= name_end(text, from, closing) <= text.len(),
        forall|k: int|
            from <= k < name_end(text, from, closing) ==> !ends_name(#[trigger] text[k], closing),
        name_end(text, from, closing) < text.len() ==> ends_name(
            text[name_end(text, from, closing)],
            closing,
        ),
    decreases text.len() - from,
{
    if from < text.len() && !ends_name(text[from], closing) {
        lemma_name_end(text, from + 1, closing);
    }
}

/// A run of characters none of which stops a name, followed by one that does
/// or by the end of the text, is where the name ends.
pub proof fn lemma_name_end_is(text: Seq<char>, from: int, end: int, closing: bool)
    requires
        0 <= from <= end <= text.len(),
        forall|k: int| from <= k < end ==> !ends_name(#[trigger] text[k], closing),
        end < text.len() ==> ends_name(text[end], closing),
    ensures
        name_end(text, from, closing) == end,
    decreases end - from,
{
    if from < end {
        lemma_name_end_is(text, from + 1, end, closing);
    }
}

/// As long as no `$` is met, the characters are copied.
pub proof fn lemma_plain_prefix(text: Seq<char>, env: Map<Seq<char>, Seq<char>>, upto: int)
    requires
        0 <= upto <= text.len(),
        forall|k: int| 0 <= k < upto ==> #[trigger] text[k] != SUBSTITUTION,
    ensures
        substituted(text, env) == expand(text, env, upto, text.take(upto)),
    decreases upto,
{
    if upto == 0 {
        assert(text.take(0) =~= Seq::empty());
    } else {
        lemma_plain_prefix(text, env, upto - 1);
        assert(text.take(upto - 1).push(text[upto - 1]) =~= text.take(upto));
    }
}

/// A word that holds no `$` is its own expansion.
pub proof fn lemma_plain_text_unchanged(text: Seq<char>, env: Map<Seq<char>, Seq<char>>)
    requires
        !text.contains(SUBSTITUTION),
    ensures
        substituted(text, env) == Ok::<Seq<char>, ErrorKind>(text),
{
    lemma_plain_prefix(text, env, text.len() as int);
    assert(text.take(text.len() as int) =~= text);
}

/// `${name}` expands to the value of `name`, and to the empty text where
/// `name` is unbound, for every name without white space and without `}`.
pub proof fn lemma_delimited_reference(name: Seq<char>, env: Map<Seq<char>, Seq<char>>)
    requires
        forall|k: int| 0 <= k < name.len() ==> !ends_name(#[trigger] name[k], true),
    ensures
        substituted("${"@ + name + "}"@, env) == Ok::<Seq<char>, ErrorKind>(
            if env.contains_key(name) {
                env[name]
            } else {
                Seq::empty()
            },
        ),
{
    reveal_strlit("${");
    reveal_strlit("}");
    let text = "${"@ + name + "}"@;
    let end = (2 + name.len()) as int;
    assert forall|k: int| 2 <= k < end implies !ends_name(#[trigger] text[k], true) by {
        assert(text[k] == name[k - 2]);
    }
    lemma_name_end_is(text, 2, end, true);
    assert(text.subrange(2, end) =~= name);
    assert(text[end] == CLOSE);
    assert(Seq::<char>::empty() + lookup(env, name) =~= lookup(env, name));
    assert(delimited_value(text, env, 2) == Ok::<Seq<char>, ErrorKind>(lookup(env, name)));
    assert(expand(text, env, end + 1, lookup(env, name)) == Ok::<Seq<char>, ErrorKind>(
        lookup(env, name),
    ));
}

/// `$name` stands for the value of the whole run of characters up to the
/// next white space, and never for that of a shorter name: what follows the
/// run is expanded after the value of `name`, and where nothing follows, the
/// value is the expansion.
pub proof fn lemma_bare_reference(name: Seq<char>, rest: Seq<char>, env: Map<Seq<char>, Seq<char>>)
    requires
        name.len() > 0,
        name[0] != OPEN,
        forall|k: int| 0 <= k < name.len() ==> !is_white_space(#[trigger] name[k]),
        rest.len() > 0 ==> is_white_space(rest[0]),
    ensures
        substituted("$"@ + name + rest, env) == expand(
            "$"@ + name + rest,
            env,
            (1 + name.len()) as int,
            lookup(env, name),
        ),
        rest.len() == 0 ==> substituted("$"@ + name, env) == Ok::<Seq<char>, ErrorKind>(
            lookup(env, name),
        ),
{
    reveal_strlit("$");
    let text = "$"@ + name + rest;
    let end = (1 + name.len()) as int;
    assert(text[1] == name[0]);
    assert forall|k: int| 1 <= k < end implies !ends_name(#[trigger] text[k], false) by {
        assert(text[k] == name[k - 1]);
    }
    if rest.len() > 0 {
        assert(text[end] == rest[0]);
    }
    lemma_name_end_is(text, 1, end, false);
    assert(text.subrange(1, end) =~= name);
    assert(Seq::<char>::empty() + lookup(env, name) =~= lookup(env, name));
    if rest.len() == 0 {
        assert(text =~= "$"@ + name);
    }
}

/// A `${` that no `}` closes, with no white space after it, is an error,
/// whatever plain text stands before it.
pub proof fn lemma_unclosed_reference(
    before: Seq<char>,
    body: Seq<char>,
    env: Map<Seq<char>, Seq<char>>,
)
    requires
        !before.contains(SUBSTITUTION),
        before.len() > 0 ==> before.last() != ESCAPE,
        forall|k: int| 0 <= k < body.len() ==> !ends_name(#[trigger] body[k], true),
    ensures
        substituted(before + "${"@ + body, env) == Err::<Seq<char>, ErrorKind>(
            ErrorKind::UnclosedDelimiter,
        ),
{
    reveal_strlit("${");
    let text = before + "${"@ + body;
    let at = before.len() as int;
    assert forall|k: int| 0 <= k < at implies #[trigger] text[k] != SUBSTITUTION by {
        assert(text[k] == before[k]);
        assert(before.contains(before[k]));
    }
    lemma_plain_prefix(text, env, at);
    assert(text.take(at) =~= before);
    assert forall|k: int| at + 2 <= k < text.len() implies !ends_name(#[trigger] text[k], true) by {
        assert(text[k] == body[k - at - 2]);
    }
    lemma_name_end_is(text, at + 2, text.len() as int, true);
}

/// White space inside `${...}`, before any `}`, is an error, whatever plain
/// text stands before the reference and whatever follows the white space.
pub proof fn lemma_space_in_reference(
    before: Seq<char>,
    name: Seq<char>,
    space: char,
    after: Seq<char>,
    env: Map<Seq<char>, Seq<char>>,
)
    requires
        !before.contains(SUBSTITUTION),
        before.len() > 0 ==> before.last() != ESCAPE,
        forall|k: int| 0 <= k < name.len() ==> !ends_name(#[trigger] name[k], true),
        is_white_space(space),
        space != CLOSE,
    ensures
        substituted(before + "${"@ + name + seq![space] + after, env) == Err::<
            Seq<char>,
            ErrorKind,
        >(ErrorKind::BadSubstitution),
{
    reveal_strlit("${");
    let text = before + "${"@ + name + seq![space] + after;
    let at = before.len() as int;
    let end = (at + 2 + name.len()) as int;
    assert forall|k: int| 0 <= k < at implies #[trigger] text[k] != SUBSTITUTION by {
        assert(text[k] == before[k]);
        assert(before.contains(before[k]));
    }
    lemma_plain_prefix(text, env, at);
    assert(text.take(at) =~= before);
    assert forall|k: int| at + 2 <= k < end implies !ends_name(#[trigger] text[k], true) by {
        assert(text[k] == name[k - at - 2]);
    }
    assert(text[end] == space);
    lemma_name_end_is(text, at + 2, end, true);
}

/// The value of the variable `varname`, or the empty string.
pub fn resolve(varname: String, env: &Environment) -> (value: String)
    ensures
        value@ == lookup(env@, varname@),
{
    match env.get(varname.as_str()) {
        Some(value) => value.clone(),
        None => String::new(),
    }
}

/// Reads a name up to its closing brace, which is read too, and returns the
/// value of that name.
pub fn delimited(stream: &mut CharStream, env: &Environment) -> (result: InterpreterResult<String>)
    ensures
        final(stream).text() == old(stream).text(),
        final(stream).position() == match result {
            Ok(_) => name_end(old(stream).text(), old(stream).position(), true) + 1,
            Err(_) => name_end(old(stream).text(), old(stream).position(), true),
        },
        match delimited_value(old(stream).text(), env@, old(stream).position()) {
            Ok(value) => result is Ok && result->Ok_0@ == value,
            Err(kind) => result is Err && result->Err_0@ == (kind, Seq::<char>::empty()),
        },
{
    let ghost text = stream.text();
    let ghost start = stream.position();
    let mut varname = String::new();
    proof {
        stream.lemma_position();
    }
    loop
        invariant_except_break
            stream.text() == text,
            0 <= start <= stream.position() <= text.len(),
            name_end(text, start, true) == name_end(text, stream.position(), true),
            varname@ == text.subrange(start, stream.position()),
        invariant
            text == old(stream).text(),
            start == old(stream).position(),
        ensures
            stream.text() == text,
            0 <= start <= name_end(text, start, true) < text.len(),
            text[name_end(text, start, true)] == CLOSE,
            stream.position() == name_end(text, start, true) + 1,
            varname@ == text.subrange(start, name_end(text, start, true)),
        decreases text.len() - stream.position(),
    {
        match stream.peek() {
            None => {
                return Err(InterpreterError::new(ErrorKind::UnclosedDelimiter));
            },
            Some(c) => {
                if c == CLOSE {
                    stream.next();
                    break ;
                } else if c.is_whitespace() {
                    return Err(InterpreterError::new(ErrorKind::BadSubstitution));
                } else {
                    stream.next();
                    varname.push(c);
                    assert(varname@ == text.subrange(start, stream.position()));
                }
            },
        }
    }
    Ok(resolve(varname, env))
}

/// Reads the longest run of characters that are not white space, and returns
/// the value of the name that they spell.
pub fn longest_match(stream: &mut CharStream, env: &Environment) -> (value: String)
    ensures
        final(stream).text() == old(stream).text(),
        final(stream).position() == name_end(old(stream).text(), old(stream).position(), false),
        value@ == bare_value(old(stream).text(), env@, old(stream).position()),
{
    let ghost text = stream.text();
    let ghost start = stream.position();
    let mut varname = String::new();
    proof {
        stream.lemma_position();
    }
    loop
        invariant_except_break
            stream.text() == text,
            0 <= start <= stream.position() <= text.len(),
            name_end(text, start, false) == name_end(text, stream.position(), false),
            varname@ == text.subrange(start, stream.position()),
        invariant
            text == old(stream).text(),
            start == old(stream).position(),
        ensures
            stream.text() == text,
            stream.position() == name_end(text, start, false),
            varname@ == text.subrange(start, name_end(text, start, false)),
        decreases text.len() - stream.position(),
    {
        match stream.peek() {
            None => {
                break ;
            },
            Some(c) => {
                if c.is_whitespace() {
                    break ;
                } else {
                    stream.next();
                    varname.push(c);
                    assert(varname@ == text.subrange(start, stream.position()));
                }
            },
        }
    }
    resolve(varname, env)
}

fn emit(emitted: &mut Vec<char>, value: &str)
    ensures
        final(emitted)@ == old(emitted)@ + value@,
{
    let ghost before = emitted@;
    for c in it: value.chars()
        invariant
            emitted@ == before + it.seq().take(it.index() as int),
            it.seq() == value@,
    {
        emitted.push(c);
    }
}

/// Expands the references to variables in `s`: `$name`, where the name runs
/// to the next white space, and `${name}`. A `$` after a backslash, before
/// white space or at the end stands for itself.
pub fn substitution(s: &str, env: &Environment) -> (result: InterpreterResult<String>)
    ensures
        match substituted(s@, env@) {
            Ok(expansion) => result is Ok && result->Ok_0@ == expansion,
            Err(kind) => result is Err && result->Err_0@ == (kind, Seq::<char>::empty()),
        },
{
    let mut sub: Vec<char> = Vec::new();
    let mut chars = CharStream::new(s);
    loop
        invariant
            chars.text() == s@,
            expand(s@, env@, chars.position(), sub@) == substituted(s@, env@),
        decreases s@.len() - chars.position(),
    {
        match chars.next() {
            None => {
                let expansion = string_of(&sub, 0, sub.len());
                return Ok(expansion);
            },
            Some(c) => {
                if c != SUBSTITUTION {
                    sub.push(c);
                } else if sub.len() > 0 && sub[sub.len() - 1] == ESCAPE {
                    sub.pop();
                    sub.push(SUBSTITUTION);
                } else {
                    match chars.peek() {
                        None => sub.push(SUBSTITUTION),
                        Some(next) => {
                            if next == OPEN {
                                chars.next();
                                proof {
                                    lemma_name_end(s@, chars.position(), true);
                                }
                                match delimited(&mut chars, env) {
                                    Ok(value) => emit(&mut sub, value.as_str()),
                                    Err(error) => {
                                        return Err(error);
                                    },
                                }
                            } else if next.is_whitespace() {
                                sub.push(SUBSTITUTION);
                            } else {
                                proof {
                                    lemma_name_end(s@, chars.position(), false);
                                }
                                let value = longest_match(&mut chars, env);
                                emit(&mut sub, value.as_str());
                            }
                        },
                    }
                }
            },
        }
    }
}

} // verus!
