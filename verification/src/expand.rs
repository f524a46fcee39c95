//! Environment variables in a configuration's text, written `${NAME}`.

use vstd::prelude::*;
use vstd::utf8::encode_utf8;

use crate::error::{ErrorView, OxllmError};
use crate::text::{chars_of, decimal, find_char, find_char_from, push_decimal, text_of};

verus! {

/// An environment variable.
#[derive(Debug, Clone)]
pub struct EnvVar {
    pub name: String,
    pub value: String,
}

/// The value of the first variable called `name` at or after `from`.
pub open spec fn lookup_from(env: Seq<EnvVar>, name: Seq<char>, from: int) -> Option<Seq<char>>
    decreases env.len() - from,
{
    if from < 0 || from >= env.len() {
        None
    } else if env[from].name@ == name {
        Some(env[from].value@)
    } else {
        lookup_from(env, name, from + 1)
    }
}

/// The value of the variable `name`, if it is set.
pub open spec fn lookup(env: Seq<EnvVar>, name: Seq<char>) -> Option<Seq<char>> {
    lookup_from(env, name, 0)
}

/// Looks a variable up.
pub fn env_value<'a>(env: &'a Vec<EnvVar>, name: &str) -> (v: Option<&'a String>)
    ensures
        match v {
            Some(s) => lookup(env@, name@) == Some(s@),
            None => lookup(env@, name@) is None,
        },
{
    let mut i: usize = 0;
    while i < env.len()
        invariant
            i <= env@.len(),
            lookup(env@, name@) == lookup_from(env@, name@, i as int),
        decreases env@.len() - i,
    {
        if *env[i].name.as_str() == *name {
            return Some(&env[i].value);
        }
        i += 1;
    }
    None
}

/// What becomes of a text when the variables in it are put in.
pub enum Expansion {
    /// The text with the values in the places of the variables.
    Done(Seq<char>),
    /// The placeholder that begins at this position is not closed.
    Unclosed(int),
    /// This variable is not set.
    Missing(Seq<char>),
}

/// What has been written, and what becomes of the rest.
pub open spec fn prefixed(written: Seq<char>, rest: Expansion) -> Expansion {
    match rest {
        Expansion::Done(s) => Expansion::Done(written + s),
        _ => rest,
    }
}

/// What becomes of the part of `raw` from `i` on.
pub open spec fn expansion(raw: Seq<char>, env: Seq<EnvVar>, i: int) -> Expansion
    decreases raw.len() - i,
{
    if i < 0 || i >= raw.len() {
        Expansion::Done(seq![])
    } else if raw[i] == '$' && i + 1 < raw.len() && raw[i + 1] == '{' {
        match find_char(raw, '}', i + 2) {
            Some(close) => if i < close < raw.len() {
                match lookup(env, raw.subrange(i + 2, close)) {
                    Some(value) => prefixed(value, expansion(raw, env, close + 1)),
                    None => Expansion::Missing(raw.subrange(i + 2, close)),
                }
            } else {
                Expansion::Unclosed(i)
            },
            None => Expansion::Unclosed(i),
        }
    } else {
        prefixed(seq![raw[i]], expansion(raw, env, i + 1))
    }
}

/// What the error about an unclosed placeholder says, which counts in bytes.
pub open spec fn unclosed_message(raw: Seq<char>, i: int) -> Seq<char> {
    "Unclosed environment variable placeholder starting at index "@ + decimal(
        encode_utf8(raw.take(i)).len(),
    )
}

/// The text `raw` with the variables in it put in, or why that cannot be done.
pub open spec fn expanded(raw: Seq<char>, env: Seq<EnvVar>) -> Result<Seq<char>, ErrorView> {
    match expansion(raw, env, 0) {
        Expansion::Done(s) => Ok(s),
        Expansion::Unclosed(i) => Err(ErrorView::ConfigLoad(unclosed_message(raw, i))),
        Expansion::Missing(name) => Err(ErrorView::EnvVarMissing(name)),
    }
}

/// Puts the values of environment variables in the places of `${NAME}`.
///
/// A dollar sign that no opening brace follows stands for itself. Values are
/// put in as they are, and not searched for further placeholders.
pub fn expand_env_vars(raw_content: &str, env: &Vec<EnvVar>) -> (r: Result<String, OxllmError>)
    ensures
        match r {
            Ok(s) => expanded(raw_content@, env@) == Ok::<Seq<char>, ErrorView>(s@),
            Err(e) => expanded(raw_content@, env@) == Err::<Seq<char>, ErrorView>(e@),
        },
{
    let chars = chars_of(raw_content);
    let n: usize = chars.len();
    let mut expanded = String::new();
    let mut i: usize = 0;
    assert(prefixed(seq![], expansion(raw_content@, env@, 0)) == expansion(raw_content@, env@, 0));
    while i < n
        invariant
            chars@ == raw_content@,
            n == chars@.len(),
            i <= n,
            expansion(raw_content@, env@, 0) == prefixed(
                expanded@,
                expansion(raw_content@, env@, i as int),
            ),
        decreases n - i,
    {
        let ghost rest = expansion(raw_content@, env@, i as int);
        if chars[i] == '$' && i + 1 < n && chars[i + 1] == '{' {
            match find_char_from(&chars, '}', i + 2) {
                Some(close) => {
                    let name = text_of(&chars, i + 2, close);
                    match env_value(env, name.as_str()) {
                        Some(value) => {
                            let ghost written = expanded@;
                            expanded.append(value.as_str());
                            proof {
                                lemma_prefixed(
                                    written,
                                    value@,
                                    expansion(raw_content@, env@, close + 1),
                                );
                            }
                            i = close + 1;
                        },
                        None => {
                            return Err(OxllmError::EnvVarMissing(name));
                        },
                    }
                },
                None => {
                    let before = text_of(&chars, 0, i);
                    assert(before@ == raw_content@.take(i as int));
                    let mut m = "Unclosed environment variable placeholder starting at index ".to_owned();
                    push_decimal(&mut m, before.as_str().as_bytes().len() as u128);
                    return Err(OxllmError::ConfigLoad(m));
                },
            }
        } else {
            let ghost written = expanded@;
            expanded.push(chars[i]);
            proof {
                assert(expanded@ == written + seq![raw_content@[i as int]]);
                lemma_prefixed(
                    written,
                    seq![raw_content@[i as int]],
                    expansion(raw_content@, env@, i + 1),
                );
            }
            i += 1;
        }
    }
    Ok(expanded)
}

proof fn lemma_prefixed(a: Seq<char>, b: Seq<char>, rest: Expansion)
    ensures
        prefixed(a, prefixed(b, rest)) == prefixed(a + b, rest),
{
    if let Expansion::Done(s) = rest {
        assert(a + (b + s) == (a + b) + s);
    }
}

/// A text without placeholders stays as it is.
pub proof fn law_plain_text_stays(raw: Seq<char>, env: Seq<EnvVar>)
    requires
        forall|i: int| 0 <= i < raw.len() - 1 && raw[i] == '$' ==> #[trigger] raw[i + 1] != '{',
    ensures
        expanded(raw, env) == Ok::<Seq<char>, ErrorView>(raw),
{
    lemma_plain_rest(raw, env, 0);
    assert(raw.skip(0) == raw);
}

proof fn lemma_plain_rest(raw: Seq<char>, env: Seq<EnvVar>, i: int)
    requires
        forall|j: int| 0 <= j < raw.len() - 1 && raw[j] == '$' ==> #[trigger] raw[j + 1] != '{',
        0 <= i <= raw.len(),
    ensures
        expansion(raw, env, i) == Expansion::Done(raw.skip(i)),
    decreases raw.len() - i,
{
    if i < raw.len() {
        lemma_plain_rest(raw, env, i + 1);
        assert(raw.skip(i) == seq![raw[i]] + raw.skip(i + 1));
    } else {
        assert(raw.skip(i) == Seq::<char>::empty());
    }
}

proof fn lemma_find_char(s: Seq<char>, c: char, from: int)
    requires
        0 <= from,
    ensures
        match find_char(s, c, from) {
            Some(i) => from <= i < s.len() && s[i] == c && forall|j: int|
                from <= j < i ==> s[j] != c,
            None => forall|j: int| from <= j < s.len() ==> s[j] != c,
        },
    decreases s.len() - from,
{
    if from < s.len() && s[from] != c {
        lemma_find_char(s, c, from + 1);
    }
}

proof fn lemma_find_unique(s: Seq<char>, c: char, from: int, at: int)
    requires
        0 <= from <= at < s.len(),
        s[at] == c,
        forall|j: int| from <= j < at ==> s[j] != c,
    ensures
        find_char(s, c, from) == Some(at),
    decreases at - from,
{
    if from < at {
        lemma_find_unique(s, c, from + 1, at);
    }
}

/// What becomes of a part does not depend on what stands before it, where it
/// can be expanded.
proof fn lemma_shift(a: Seq<char>, b: Seq<char>, env: Seq<EnvVar>, i: int)
    requires
        0 <= i <= b.len(),
        expansion(b, env, i) is Done,
    ensures
        expansion(a + b, env, a.len() + i) == expansion(b, env, i),
    decreases b.len() - i,
{
    let ab = a + b;
    let k = a.len() + i;
    if i < b.len() {
        assert(ab[k] == b[i]);
        if i + 1 < b.len() {
            assert(ab[k + 1] == b[i + 1]);
        }
        if b[i] == '$' && i + 1 < b.len() && b[i + 1] == '{' {
            lemma_find_char(b, '}', i + 2);
            let close = find_char(b, '}', i + 2)->0;
            assert(find_char(b, '}', i + 2) is Some);
            lemma_find_unique(ab, '}', k + 2, a.len() + close);
            assert(ab.subrange(k + 2, a.len() + close) == b.subrange(i + 2, close));
            lemma_shift(a, b, env, close + 1);
        } else {
            lemma_shift(a, b, env, i + 1);
        }
    }
}

/// A part that can be expanded becomes the same where more text follows,
/// unless the two would join to a new placeholder.
proof fn lemma_append(a: Seq<char>, t: Seq<char>, env: Seq<EnvVar>, i: int)
    requires
        0 <= i <= a.len(),
        t.len() > 0 ==> t[0] != '{',
        expansion(a, env, i) is Done,
    ensures
        expansion(a + t, env, i) == prefixed(
            expansion(a, env, i)->Done_0,
            expansion(a + t, env, a.len() as int),
        ),
    decreases a.len() - i,
{
    let at = a + t;
    let rest = expansion(at, env, a.len() as int);
    if i < a.len() {
        assert(at[i] == a[i]);
        if i + 1 < a.len() {
            assert(at[i + 1] == a[i + 1]);
        } else if t.len() > 0 {
            assert(at[i + 1] == t[0]);
        }
        if a[i] == '$' && i + 1 < a.len() && a[i + 1] == '{' {
            lemma_find_char(a, '}', i + 2);
            let close = find_char(a, '}', i + 2)->0;
            lemma_find_unique(at, '}', i + 2, close);
            assert(at.subrange(i + 2, close) == a.subrange(i + 2, close));
            lemma_append(a, t, env, close + 1);
            let value = lookup(env, a.subrange(i + 2, close))->0;
            lemma_prefixed(value, expansion(a, env, close + 1)->Done_0, rest);
        } else {
            lemma_append(a, t, env, i + 1);
            lemma_prefixed(seq![a[i]], expansion(a, env, i + 1)->Done_0, rest);
        }
    } else {
        assert(prefixed(seq![], rest) == rest) by {
            if let Expansion::Done(s) = rest {
                assert(Seq::<char>::empty() + s == s);
            }
        }
    }
}

/// The text of the placeholder for a variable.
pub open spec fn placeholder(name: Seq<char>) -> Seq<char> {
    seq!['$', '{'] + name + seq!['}']
}

proof fn lemma_placeholder_found(before: Seq<char>, name: Seq<char>, behind: Seq<char>)
    requires
        !name.contains('}'),
    ensures
        ({
            let whole = before + placeholder(name) + behind;
            let i = before.len() as int;
            &&& whole[i] == '$'
            &&& whole[i + 1] == '{'
            &&& find_char(whole, '}', i + 2) == Some(i + 2 + name.len())
            &&& whole.subrange(i + 2, i + 2 + name.len()) == name
        }),
{
    let whole = before + placeholder(name) + behind;
    let i = before.len() as int;
    let close = i + 2 + name.len();
    assert(whole[close] == '}');
    assert forall|j: int| i + 2 <= j < close implies whole[j] != '}' by {
        assert(whole[j] == name[j - i - 2]);
        assert(name.contains(name[j - i - 2]));
    }
    lemma_find_unique(whole, '}', i + 2, close);
    assert(whole.subrange(i + 2, close) =~= name);
}

/// A placeholder is replaced by the value of its variable, as it is, and what
/// stands before and behind it becomes what it would become alone.
pub proof fn law_placeholder_replaced(
    before: Seq<char>,
    name: Seq<char>,
    behind: Seq<char>,
    env: Seq<EnvVar>,
)
    requires
        !name.contains('}'),
        lookup(env, name) is Some,
        expanded(before, env) is Ok,
        expanded(behind, env) is Ok,
    ensures
        expanded(before + placeholder(name) + behind, env) == Ok::<Seq<char>, ErrorView>(
            expanded(before, env)->Ok_0 + lookup(env, name)->0 + expanded(behind, env)->Ok_0,
        ),
{
    let t = placeholder(name) + behind;
    let whole = before + placeholder(name) + behind;
    assert(whole == before + t);
    lemma_append(before, t, env, 0);
    lemma_placeholder_found(before, name, behind);
    let head = before + placeholder(name);
    lemma_shift(head, behind, env, 0);
    let s = expansion(before, env, 0)->Done_0;
    let v = lookup(env, name)->0;
    let u = expansion(behind, env, 0)->Done_0;
    assert(s + (v + u) == s + v + u);
}

/// A variable that is not set is reported, if nothing is wrong before it.
pub proof fn law_missing_is_reported(
    before: Seq<char>,
    name: Seq<char>,
    behind: Seq<char>,
    env: Seq<EnvVar>,
)
    requires
        !name.contains('}'),
        lookup(env, name) is None,
        expanded(before, env) is Ok,
    ensures
        expanded(before + placeholder(name) + behind, env) == Err::<Seq<char>, ErrorView>(
            ErrorView::EnvVarMissing(name),
        ),
{
    let t = placeholder(name) + behind;
    let whole = before + placeholder(name) + behind;
    assert(whole == before + t);
    lemma_append(before, t, env, 0);
    lemma_placeholder_found(before, name, behind);
}

proof fn lemma_lookup(env: Seq<EnvVar>, name: Seq<char>, from: int)
    requires
        0 <= from,
    ensures
        match lookup_from(env, name, from) {
            Some(v) => exists|i: int|
                from <= i < env.len() && (#[trigger] env[i]).name@ == name && env[i].value@ == v
                    && forall|j: int| from <= j < i ==> (#[trigger] env[j]).name@ != name,
            None => forall|i: int| from <= i < env.len() ==> (#[trigger] env[i]).name@ != name,
        },
    decreases env.len() - from,
{
    if from < env.len() {
        if env[from].name@ != name {
            lemma_lookup(env, name, from + 1);
        }
    }
}

/// Every variable that is set is found, wherever it stands, with its value: of
/// two of one name, the first. What is not set is not found.
pub proof fn law_every_variable_is_found(env: Seq<EnvVar>, name: Seq<char>)
    ensures
        lookup(env, name) is None <==> forall|i: int|
            0 <= i < env.len() ==> (#[trigger] env[i]).name@ != name,
        forall|i: int|
            0 <= i < env.len() && (#[trigger] env[i]).name@ == name && (forall|j: int|
                0 <= j < i ==> (#[trigger] env[j]).name@ != name) ==> lookup(env, name) == Some(
                env[i].value@,
            ),
        lookup(env, name) is Some ==> exists|i: int|
            0 <= i < env.len() && (#[trigger] env[i]).name@ == name && env[i].value@ == lookup(
                env,
                name,
            )->0,
{
    lemma_lookup(env, name, 0);
    if lookup(env, name) is Some {
        let k = choose|i: int|
            0 <= i < env.len() && (#[trigger] env[i]).name@ == name && env[i].value@ == lookup(
                env,
                name,
            )->0 && forall|j: int| 0 <= j < i ==> (#[trigger] env[j]).name@ != name;
        assert forall|i: int|
            0 <= i < env.len() && (#[trigger] env[i]).name@ == name && (forall|j: int|
                0 <= j < i ==> (#[trigger] env[j]).name@ != name) implies lookup(env, name) == Some(
            env[i].value@,
        ) by {
            if i < k {
                assert(env[i].name@ != name);
            }
            if k < i {
                assert(env[k].name@ != name);
            }
        }
    }
}

/// What a variable is worth depends on its own name alone: other variables do
/// not matter, before it or behind it.
pub proof fn law_other_variables_do_not_matter(env: Seq<EnvVar>, other: EnvVar, name: Seq<char>)
    requires
        other.name@ != name,
    ensures
        lookup(seq![other] + env, name) == lookup(env, name),
        lookup(env.push(other), name) == lookup(env, name),
{
    let before = seq![other] + env;
    let behind = env.push(other);
    law_every_variable_is_found(env, name);
    law_every_variable_is_found(before, name);
    law_every_variable_is_found(behind, name);
    lemma_lookup(env, name, 0);
    if lookup(env, name) is Some {
        let k = choose|i: int|
            0 <= i < env.len() && (#[trigger] env[i]).name@ == name && env[i].value@ == lookup(
                env,
                name,
            )->0 && forall|j: int| 0 <= j < i ==> (#[trigger] env[j]).name@ != name;
        assert(before[k + 1] == env[k]);
        assert forall|j: int| 0 <= j < k + 1 implies (#[trigger] before[j]).name@ != name by {
            if j > 0 {
                assert(before[j] == env[j - 1]);
            }
        }
        assert(behind[k] == env[k]);
        assert forall|j: int| 0 <= j < k implies (#[trigger] behind[j]).name@ != name by {
            assert(behind[j] == env[j]);
        }
    } else {
        assert forall|j: int| 0 <= j < before.len() implies (#[trigger] before[j]).name@ != name by {
            if j > 0 {
                assert(before[j] == env[j - 1]);
            }
        }
        assert forall|j: int| 0 <= j < behind.len() implies (#[trigger] behind[j]).name@ != name by {
            if j < env.len() {
                assert(behind[j] == env[j]);
            }
        }
    }
}

/// A placeholder that is not closed is reported with the number of bytes before
/// it, if nothing is wrong before it.
pub proof fn law_unclosed_is_reported(before: Seq<char>, rest: Seq<char>, env: Seq<EnvVar>)
    requires
        !rest.contains('}'),
        expanded(before, env) is Ok,
    ensures
        expanded(before + seq!['$', '{'] + rest, env) == Err::<Seq<char>, ErrorView>(
            ErrorView::ConfigLoad(
                "Unclosed environment variable placeholder starting at index "@ + decimal(
                    encode_utf8(before).len(),
                ),
            ),
        ),
{
    let t = seq!['$', '{'] + rest;
    let whole = before + seq!['$', '{'] + rest;
    let i = before.len() as int;
    assert(whole == before + t);
    lemma_append(before, t, env, 0);
    assert(whole[i] == '$');
    assert(whole[i + 1] == '{');
    lemma_find_char(whole, '}', i + 2);
    assert forall|j: int| i + 2 <= j < whole.len() implies whole[j] != '}' by {
        assert(whole[j] == rest[j - i - 2]);
        assert(rest.contains(rest[j - i - 2]));
    }
    assert(whole.take(i) =~= before);
}

} // verus!
