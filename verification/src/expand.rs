//! `$VAR` / `${VAR}` expansion in command lines.

use vstd::prelude::*;
use vstd::string::*;

use crate::table::Table;
use crate::text::{
    alpha, chars, chr, digit, find, find_char, find_first, find_unique, is_alpha, is_digit, lacks,
    string_of, texts, Text,
};

verus! {

/// The characters that end the name of a variable.
pub open spec fn name_end() -> spec_fn(char) -> bool {
    |c: char| !(is_alpha(c) || is_digit(c) || c == '_')
}

/// The value of a variable; an unset one is empty.
pub open spec fn value_in(env: Map<Text, String>, name: Text) -> Text {
    if env.contains_key(name) {
        env[name]@
    } else {
        seq![]
    }
}

/// The name that a `$` refers to, from what follows it, and what follows the
/// reference. The name is empty where there is none.
pub open spec fn reference(rest: Text) -> (Text, Text) {
    if rest.len() > 0 && rest[0] == '{' {
        let braced = rest.skip(1);
        let k = find(braced, chr('}')) as int;
        if k < braced.len() {
            (braced.take(k), braced.skip(k + 1))
        } else {
            (seq![], seq![])
        }
    } else {
        let k = find(rest, name_end()) as int;
        (rest.take(k), rest.skip(k))
    }
}

/// A text with its variables replaced. From a `$` on that refers to nothing it
/// stays as it is.
pub open spec fn expanded(tok: Text, env: Map<Text, String>) -> Text
    decreases tok.len(),
{
    if tok.len() == 0 {
        seq![]
    } else if tok[0] != '$' {
        seq![tok[0]] + expanded(tok.skip(1), env)
    } else {
        let (name, after) = reference(tok.skip(1));
        if name.len() == 0 {
            tok
        } else {
            proof {
                reference_is_short(tok.skip(1));
            }
            value_in(env, name) + expanded(after, env)
        }
    }
}

/// What follows a reference is shorter than the text.
pub proof fn reference_is_short(rest: Text)
    ensures
        reference(rest).1.len() <= rest.len(),
{
    if rest.len() > 0 && rest[0] == '{' {
        find_first(rest.skip(1), chr('}'));
    } else {
        find_first(rest, name_end());
    }
}

/// The end of a run of name characters from `from` on.
pub fn name_run(v: &Vec<char>, from: usize) -> (r: usize)
    requires
        from <= v.len(),
    ensures
        from <= r <= v.len(),
        r - from == find(v@.skip(from as int), name_end()),
{
    let mut i: usize = from;
    while i < v.len() && (alpha(v[i]) || digit(v[i]) || v[i] == '_')
        invariant
            from <= i <= v.len(),
            forall|j: int| from <= j < i ==> !name_end()(#[trigger] v@[j]),
        decreases v.len() - i,
    {
        i = i + 1;
    }
    proof {
        let s = v@.skip(from as int);
        assert forall|j: int| 0 <= j < i - from implies !name_end()(#[trigger] s[j]) by {
            assert(s[j] == v@[from + j]);
        }
        if i < v.len() {
            assert(s[i - from] == v@[i as int]);
        }
        find_unique(s, name_end(), i - from);
    }
    i
}

/// Expand `$VAR` and `${VAR}` in a single token. Unset variables expand to the
/// empty string.
pub fn expand_env_token(tok: &str, env: &Table<String>) -> (r: String)
    ensures
        r@ == expanded(tok@, env@),
{
    let v = chars(tok);
    let mut out = String::new();
    let mut i: usize = 0;
    assert(v@.skip(0) =~= v@);
    while i < v.len()
        invariant
            v@ == tok@,
            i <= v.len(),
            out@ + expanded(v@.skip(i as int), env@) == expanded(tok@, env@),
        decreases v.len() - i,
    {
        let ghost t = v@.skip(i as int);
        let ghost before = out@;
        assert(t[0] == v@[i as int]);
        if v[i] != '$' {
            out.push(v[i]);
            proof {
                assert(t.skip(1) =~= v@.skip(i + 1));
                assert(out@ + expanded(v@.skip(i + 1), env@) =~= before + expanded(t, env@));
            }
            i = i + 1;
        } else {
            let ghost rest = t.skip(1);
            assert(rest =~= v@.skip(i + 1));
            let start: usize;
            let end: usize;
            let next: usize;
            if i + 1 < v.len() && v[i + 1] == '{' {
                start = i + 2;
                assert(rest[0] == v@[i + 1]);
                assert(rest.skip(1) =~= v@.skip(start as int));
                let k = find_char(&v, start, '}');
                if k < v.len() {
                    end = k;
                    next = k + 1;
                } else {
                    end = start;
                    next = v.len();
                }
                proof {
                    find_first(rest.skip(1), chr('}'));
                    if k < v.len() {
                        assert(rest.skip(1).take(k - start) =~= v@.subrange(
                            start as int,
                            end as int,
                        ));
                        assert(rest.skip(1).skip(k - start + 1) =~= v@.skip(next as int));
                    } else {
                        assert(v@.subrange(start as int, end as int) =~= seq![]);
                        assert(v@.skip(next as int) =~= seq![]);
                    }
                }
            } else {
                start = i + 1;
                end = name_run(&v, start);
                next = end;
                proof {
                    if rest.len() > 0 {
                        assert(rest[0] == v@[i + 1]);
                    }
                    assert(rest.take(end - start) =~= v@.subrange(start as int, end as int));
                    assert(rest.skip(end - start) =~= v@.skip(next as int));
                }
            }
            let name = string_of(&v, start, end);
            proof {
                assert(reference(rest) == (name@, v@.skip(next as int)));
                reference_is_short(rest);
            }
            if end == start {
                let left = string_of(&v, i, v.len());
                assert(left@ =~= t);
                out.append(left.as_str());
                return out;
            }
            match env.get(name.as_str()) {
                Some(value) => {
                    out.append(value.as_str());
                },
                None => {},
            }
            proof {
                assert(out@ =~= before + value_in(env@, name@));
                assert(out@ + expanded(v@.skip(next as int), env@) =~= before + expanded(t, env@));
            }
            i = next;
        }
    }
    assert(v@.skip(i as int) =~= seq![]);
    assert(out@ =~= out@ + expanded(v@.skip(i as int), env@));
    out
}

/// Expand every token of a command line.
pub fn expand_env_argv(argv: &Vec<String>, env: &Table<String>) -> (r: Vec<String>)
    ensures
        texts(r@) == Seq::new(argv.len() as nat, |i: int| expanded(argv[i]@, env@)),
{
    let mut out: Vec<String> = Vec::new();
    let mut i: usize = 0;
    while i < argv.len()
        invariant
            i <= argv.len(),
            out.len() == i,
            forall|j: int| 0 <= j < i ==> (#[trigger] out@[j])@ == expanded(argv@[j]@, env@),
        decreases argv.len() - i,
    {
        out.push(expand_env_token(argv[i].as_str(), env));
        i = i + 1;
    }
    assert(texts(out@) =~= Seq::new(argv.len() as nat, |i: int| expanded(argv[i]@, env@)));
    out
}

/// Text before the first `$` stays, and what follows is expanded by itself.
pub proof fn text_before_a_dollar_stays(a: Text, b: Text, env: Map<Text, String>)
    requires
        lacks(a, '$'),
    ensures
        expanded(a + b, env) == a + expanded(b, env),
    decreases a.len(),
{
    let s = a + b;
    if a.len() == 0 {
        assert(s =~= b);
        assert(a + expanded(b, env) =~= expanded(b, env));
    } else {
        assert(s[0] == a[0]);
        assert(s.skip(1) =~= a.skip(1) + b);
        assert forall|i: int| 0 <= i < a.skip(1).len() implies #[trigger] a.skip(1)[i] != '$' by {
            assert(a.skip(1)[i] == a[i + 1]);
        }
        text_before_a_dollar_stays(a.skip(1), b, env);
        assert(expanded(s, env) =~= a + expanded(b, env));
    }
}

/// A braced reference is replaced by the variable's value, whatever follows.
pub proof fn braced_reference_is_replaced(name: Text, b: Text, env: Map<Text, String>)
    requires
        name.len() > 0,
        lacks(name, '}'),
    ensures
        expanded(seq!['$', '{'] + name + seq!['}'] + b, env) == value_in(env, name) + expanded(
            b,
            env,
        ),
{
    let s = seq!['$', '{'] + name + seq!['}'] + b;
    let braced = name + seq!['}'] + b;
    assert(s.skip(1).skip(1) =~= braced);
    assert(s.skip(1)[0] == '{');
    assert forall|i: int| 0 <= i < name.len() implies !chr('}')(#[trigger] braced[i]) by {
        assert(braced[i] == name[i]);
    }
    find_unique(braced, chr('}'), name.len() as int);
    assert(braced.take(name.len() as int) =~= name);
    assert(braced.skip(name.len() as int + 1) =~= b);
}

/// A variable that is set is worth its value, one that is not is worth nothing.
pub proof fn variables_are_worth_their_values(env: Map<Text, String>, name: Text)
    ensures
        env.contains_key(name) ==> value_in(env, name) == env[name]@,
        !env.contains_key(name) ==> value_in(env, name).len() == 0,
{
}

/// A reference without braces is the longest run of letters, digits and
/// underscores behind the `$`; it is replaced, and what follows is expanded by
/// itself.
pub proof fn plain_reference_is_replaced(name: Text, b: Text, env: Map<Text, String>)
    requires
        name.len() > 0,
        forall|i: int|
            0 <= i < name.len() ==> is_alpha(#[trigger] name[i]) || is_digit(name[i]) || name[i]
                == '_',
        b.len() > 0 ==> !is_alpha(b[0]) && !is_digit(b[0]) && b[0] != '_',
    ensures
        expanded(seq!['$'] + name + b, env) == value_in(env, name) + expanded(b, env),
{
    let s = seq!['$'] + name + b;
    let rest = name + b;
    let k = name.len() as int;
    assert(s.skip(1) =~= rest);
    assert(rest[0] == name[0]);
    assert forall|i: int| 0 <= i < k implies !name_end()(#[trigger] rest[i]) by {
        assert(rest[i] == name[i]);
    }
    if b.len() > 0 {
        assert(rest[k] == b[0]);
    }
    find_unique(rest, name_end(), k);
    assert(rest.take(k) =~= name);
    assert(rest.skip(k) =~= b);
}

/// A `$` that no name follows stays, with all that comes behind it.
pub proof fn lone_dollars_stay(b: Text, env: Map<Text, String>)
    requires
        b.len() > 0 ==> !is_alpha(b[0]) && !is_digit(b[0]) && b[0] != '_' && b[0] != '{',
    ensures
        expanded(seq!['$'] + b, env) == seq!['$'] + b,
{
    let s = seq!['$'] + b;
    assert(s.skip(1) =~= b);
    find_unique(b, name_end(), 0);
    assert(b.take(0) =~= seq![]);
}

} // verus!
